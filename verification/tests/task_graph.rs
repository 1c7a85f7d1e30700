use bm_storage::graph::GraphOp;
use bm_storage::model::{EventRow, StepRef};
use bm_storage::task_graph::{
    contains_edge_projection, node_delete_projection_source, step_node_projection, task_node_projection,
};

fn event(seq: i64) -> EventRow {
    EventRow {
        seq,
        ts_ms: 1,
        task_id: Some("TASK-001".to_string()),
        path: None,
        event_type: "step_done".to_string(),
        payload_json: "{}".to_string(),
    }
}

#[test]
fn tasks_and_steps_are_mirrored_as_nodes() {
    let p = task_node_projection(&event(7), "TASK-001", "Ship it");
    match &p.op {
        GraphOp::NodeUpsert(n) => {
            assert_eq!(n.id, "task:TASK-001");
            assert_eq!(n.node_type, "task");
            assert_eq!(n.title.as_deref(), Some("Ship it"));
            assert_eq!(n.status, None);
            assert_eq!(n.meta_json.as_deref(), Some("{\"source\":\"tasks\",\"task_id\":\"TASK-001\"}"));
        }
        other => panic!("unexpected {other:?}"),
    }
    assert_eq!(p.source_event_id, "task_graph:evt_0000000000000007:node:task:TASK-001");

    let step = StepRef { step_id: "STEP-0000000A".to_string(), path: "s:1".to_string() };
    let s = step_node_projection(&event(8), "TASK-001", &step, "Write tests", true);
    match &s.op {
        GraphOp::NodeUpsert(n) => {
            assert_eq!(n.id, "step:STEP-0000000A");
            assert_eq!(n.status.as_deref(), Some("done"));
        }
        other => panic!("unexpected {other:?}"),
    }
    let open = step_node_projection(&event(8), "TASK-001", &step, "Write tests", false);
    assert!(matches!(&open.op, GraphOp::NodeUpsert(n) if n.status.as_deref() == Some("open")));
}

#[test]
fn containment_edges_and_deletions_are_recorded_per_event() {
    let e = contains_edge_projection(&event(9), "task:T", "step:S");
    assert!(matches!(&e.op, GraphOp::EdgeUpsert(x) if x.rel == "contains" && x.from == "task:T" && x.to == "step:S"));
    assert_eq!(e.source_event_id, "task_graph:evt_0000000000000009:edge:task:T:contains:step:S");
    assert_eq!(
        node_delete_projection_source(&event(10), "step:S"),
        "task_graph:evt_0000000000000010:node_delete:step:S"
    );
}
