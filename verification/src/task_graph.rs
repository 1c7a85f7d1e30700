//! How tasks and their steps are mirrored into a task's graph document: the node or edge
//! each change writes, and the id that records which event wrote it (so that replaying an
//! event writes nothing twice).

use vstd::prelude::*;

use crate::graph::{GraphEdgeUpsert, GraphNodeUpsert, GraphOp};
use crate::json::json_escape_seq;
use crate::model::{event_id_seq, EventRow, StepRef};
use crate::steps::{build_step_graph_meta_json, build_task_graph_meta_json, step_graph_node_id, task_graph_node_id};
use crate::text::{append_str, chars_of, string_of};

verus! {

broadcast use vstd::string::group_string_axioms;

/// A change to write to the graph, with the id of the event it comes from.
#[derive(Debug)]
pub struct GraphProjection {
    pub op: GraphOp,
    pub source_event_id: String,
}

/// `task_graph:<event id>:<what>`: the record of which event wrote a projected change.
pub open spec fn projection_source_spec(event_seq: i64, what: Seq<char>) -> Seq<char> {
    "task_graph:"@ + event_id_seq(event_seq as int) + ":"@ + what
}

fn projection_source(event: &EventRow, what: &[char]) -> (r: String)
    ensures
        r@ == projection_source_spec(event.seq, what@),
{
    let mut out: Vec<char> = Vec::new();
    append_str(&mut out, "task_graph:");
    let id = event.event_id();
    append_str(&mut out, id.as_str());
    append_str(&mut out, ":");
    crate::text::append_chars(&mut out, what);
    string_of(out.as_slice())
}

/// The record id of a node written for `node_id`: `task_graph:<event id>:node:<node id>`.
pub fn node_projection_source(event: &EventRow, node_id: &str) -> (r: String)
    ensures
        r@ == projection_source_spec(event.seq, "node:"@ + node_id@),
{
    let mut what: Vec<char> = Vec::new();
    append_str(&mut what, "node:");
    append_str(&mut what, node_id);
    projection_source(event, what.as_slice())
}

/// The record id of a node deletion: `task_graph:<event id>:node_delete:<node id>`.
pub fn node_delete_projection_source(event: &EventRow, node_id: &str) -> (r: String)
    ensures
        r@ == projection_source_spec(event.seq, "node_delete:"@ + node_id@),
{
    let mut what: Vec<char> = Vec::new();
    append_str(&mut what, "node_delete:");
    append_str(&mut what, node_id);
    projection_source(event, what.as_slice())
}

/// The record id of a containment edge: `task_graph:<event id>:edge:<from>:contains:<to>`.
pub fn contains_edge_projection_source(event: &EventRow, from: &str, to: &str) -> (r: String)
    ensures
        r@ == projection_source_spec(event.seq, "edge:"@ + from@ + ":contains:"@ + to@),
{
    let mut what: Vec<char> = Vec::new();
    append_str(&mut what, "edge:");
    append_str(&mut what, from);
    append_str(&mut what, ":contains:");
    append_str(&mut what, to);
    projection_source(event, what.as_slice())
}

/// The node a task is mirrored as: `task:<id>`, of type `task`, titled as the task, without
/// status, with its task id as metadata.
pub fn task_node_projection(event: &EventRow, task_id: &str, title: &str) -> (r: GraphProjection)
    ensures
        r.op matches GraphOp::NodeUpsert(n) && {
            &&& n.id@ == "task:"@ + task_id@
            &&& n.node_type@ == "task"@
            &&& n.title matches Some(t) && t@ == title@
            &&& n.text is None
            &&& n.tags@.len() == 0
            &&& n.status is None
            &&& n.meta_json matches Some(m) && m@ == "{\"source\":\"tasks\",\"task_id\":\""@
                + json_escape_seq(task_id@) + "\"}"@
        },
        r.source_event_id@ == projection_source_spec(event.seq, "node:"@ + "task:"@ + task_id@),
{
    let node_id = task_graph_node_id(task_id);
    let meta = build_task_graph_meta_json(task_id);
    let source_event_id = node_projection_source(event, node_id.as_str());
    GraphProjection {
        op: GraphOp::NodeUpsert(
            GraphNodeUpsert {
                id: node_id,
                node_type: string_of(chars_of("task").as_slice()),
                title: Some(string_of(chars_of(title).as_slice())),
                text: None,
                tags: Vec::new(),
                status: None,
                meta_json: Some(meta),
            },
        ),
        source_event_id,
    }
}

/// The node a step is mirrored as: `step:<id>`, of type `step`, titled as the step, `done`
/// once completed and `open` before, with its task, step id and path as metadata.
pub fn step_node_projection(
    event: &EventRow,
    task_id: &str,
    step: &StepRef,
    title: &str,
    completed: bool,
) -> (r: GraphProjection)
    ensures
        r.op matches GraphOp::NodeUpsert(n) && {
            &&& n.id@ == "step:"@ + step.step_id@
            &&& n.node_type@ == "step"@
            &&& n.title matches Some(t) && t@ == title@
            &&& n.text is None
            &&& n.tags@.len() == 0
            &&& n.status matches Some(s) && s@ == if completed {
                "done"@
            } else {
                "open"@
            }
            &&& n.meta_json matches Some(m) && m@ == "{\"source\":\"tasks\",\"task_id\":\""@
                + json_escape_seq(task_id@) + "\",\"step_id\":\""@ + json_escape_seq(step.step_id@)
                + "\",\"path\":\""@ + json_escape_seq(step.path@) + "\"}"@
        },
        r.source_event_id@ == projection_source_spec(event.seq, "node:"@ + "step:"@ + step.step_id@),
{
    let node_id = step_graph_node_id(step.step_id.as_str());
    let meta = build_step_graph_meta_json(task_id, step);
    let source_event_id = node_projection_source(event, node_id.as_str());
    let status = if completed {
        "done"
    } else {
        "open"
    };
    GraphProjection {
        op: GraphOp::NodeUpsert(
            GraphNodeUpsert {
                id: node_id,
                node_type: string_of(chars_of("step").as_slice()),
                title: Some(string_of(chars_of(title).as_slice())),
                text: None,
                tags: Vec::new(),
                status: Some(string_of(chars_of(status).as_slice())),
                meta_json: Some(meta),
            },
        ),
        source_event_id,
    }
}

/// The edge that files `to` under `from`: relation `contains`, without metadata.
pub fn contains_edge_projection(event: &EventRow, from: &str, to: &str) -> (r: GraphProjection)
    ensures
        r.op matches GraphOp::EdgeUpsert(e) && e.from@ == from@ && e.rel@ == "contains"@ && e.to@
            == to@ && e.meta_json is None,
        r.source_event_id@ == projection_source_spec(
            event.seq,
            "edge:"@ + from@ + ":contains:"@ + to@,
        ),
{
    GraphProjection {
        op: GraphOp::EdgeUpsert(
            GraphEdgeUpsert {
                from: string_of(chars_of(from).as_slice()),
                rel: string_of(chars_of("contains").as_slice()),
                to: string_of(chars_of(to).as_slice()),
                meta_json: None,
            },
        ),
        source_event_id: contains_edge_projection_source(event, from, to),
    }
}

} // verus!
