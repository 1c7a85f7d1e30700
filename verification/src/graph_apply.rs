//! Applying operations to a graph document: the checks made before and for each operation,
//! and the counts reported afterwards.

use vstd::prelude::*;

use crate::error::StoreError;
use crate::graph::{GraphEdge, GraphNode, GraphOp};
use crate::text::{trim_seq, trim_str};

verus! {

broadcast use vstd::string::group_string_axioms;

/// What one call applied.
#[derive(Debug)]
pub struct GraphApplyResult {
    pub nodes_upserted: usize,
    pub nodes_deleted: usize,
    pub edges_upserted: usize,
    pub edges_deleted: usize,
    pub last_seq: i64,
    pub last_ts_ms: i64,
}

/// The branch and document must not be blank and there must be something to apply.
pub fn check_apply_request(branch: &str, doc: &str, ops: &[GraphOp]) -> (r: Result<(), StoreError>)
    ensures
        trim_seq(branch@).len() == 0 ==> (r matches Err(StoreError::InvalidInput(m)) && m@
            == "branch must not be empty"@),
        trim_seq(branch@).len() > 0 && trim_seq(doc@).len() == 0 ==> (r matches Err(
            StoreError::InvalidInput(m),
        ) && m@ == "doc must not be empty"@),
        trim_seq(branch@).len() > 0 && trim_seq(doc@).len() > 0 && ops@.len() == 0 ==> (r matches Err(
            StoreError::InvalidInput(m),
        ) && m@ == "ops must not be empty"@),
        trim_seq(branch@).len() > 0 && trim_seq(doc@).len() > 0 && ops@.len() > 0 ==> r is Ok,
{
    if trim_str(branch).len() == 0 {
        return Err(StoreError::InvalidInput("branch must not be empty"));
    }
    if trim_str(doc).len() == 0 {
        return Err(StoreError::InvalidInput("doc must not be empty"));
    }
    if ops.len() == 0 {
        return Err(StoreError::InvalidInput("ops must not be empty"));
    }
    Ok(())
}

/// A node can be deleted when it is there and not deleted yet.
pub fn check_node_delete(existing: &Option<GraphNode>) -> (r: Result<(), StoreError>)
    ensures
        existing is None ==> (r matches Err(StoreError::InvalidInput(m)) && m@ == "node not found"@),
        existing matches Some(n) && n.deleted ==> (r matches Err(StoreError::InvalidInput(m)) && m@
            == "node already deleted"@),
        existing matches Some(n) && !n.deleted ==> r is Ok,
{
    match existing {
        None => Err(StoreError::InvalidInput("node not found")),
        Some(n) => if n.deleted {
            Err(StoreError::InvalidInput("node already deleted"))
        } else {
            Ok(())
        },
    }
}

/// An edge may only join nodes that are there and not deleted.
pub fn check_edge_endpoints(from: &Option<GraphNode>, to: &Option<GraphNode>) -> (r: Result<(), StoreError>)
    ensures
        from is None ==> (r matches Err(StoreError::InvalidInput(m)) && m@ == "edge.from node not found"@),
        from matches Some(n) && n.deleted ==> (r matches Err(StoreError::InvalidInput(m)) && m@
            == "edge.from node is deleted"@),
        from matches Some(n) && !n.deleted && to is None ==> (r matches Err(StoreError::InvalidInput(m))
            && m@ == "edge.to node not found"@),
        from matches Some(n) && !n.deleted && (to is Some && to->0.deleted) ==> (r matches Err(
            StoreError::InvalidInput(m),
        ) && m@ == "edge.to node is deleted"@),
        from matches Some(n) && !n.deleted && (to is Some && !to->0.deleted) ==> r is Ok,
{
    match from {
        None => {
            return Err(StoreError::InvalidInput("edge.from node not found"));
        },
        Some(n) => {
            if n.deleted {
                return Err(StoreError::InvalidInput("edge.from node is deleted"));
            }
        },
    }
    match to {
        None => Err(StoreError::InvalidInput("edge.to node not found")),
        Some(t) => if t.deleted {
            Err(StoreError::InvalidInput("edge.to node is deleted"))
        } else {
            Ok(())
        },
    }
}

/// An edge can be deleted when it is there and not deleted yet.
pub fn check_edge_delete(existing: &Option<GraphEdge>) -> (r: Result<(), StoreError>)
    ensures
        existing is None ==> (r matches Err(StoreError::InvalidInput(m)) && m@ == "edge not found"@),
        existing matches Some(e) && e.deleted ==> (r matches Err(StoreError::InvalidInput(m)) && m@
            == "edge already deleted"@),
        existing matches Some(e) && !e.deleted ==> r is Ok,
{
    match existing {
        None => Err(StoreError::InvalidInput("edge not found")),
        Some(e) => if e.deleted {
            Err(StoreError::InvalidInput("edge already deleted"))
        } else {
            Ok(())
        },
    }
}

impl GraphApplyResult {
    /// Nothing applied yet, at time `now_ms`.
    pub fn new(now_ms: i64) -> (r: GraphApplyResult)
        ensures
            r.nodes_upserted == 0,
            r.nodes_deleted == 0,
            r.edges_upserted == 0,
            r.edges_deleted == 0,
            r.last_seq == 0,
            r.last_ts_ms == now_ms,
    {
        GraphApplyResult {
            nodes_upserted: 0,
            nodes_deleted: 0,
            edges_upserted: 0,
            edges_deleted: 0,
            last_seq: 0,
            last_ts_ms: now_ms,
        }
    }

    /// Counts operation `op`, written at `seq`; deleting a node also deleted the
    /// `cascaded_edges` edges that touched it.
    pub fn record(&mut self, op: &GraphOp, seq: i64, cascaded_edges: usize)
        requires
            old(self).nodes_upserted < usize::MAX,
            old(self).nodes_deleted < usize::MAX,
            old(self).edges_upserted < usize::MAX,
            old(self).edges_deleted + cascaded_edges < usize::MAX,
        ensures
            final(self).last_seq == seq,
            final(self).last_ts_ms == old(self).last_ts_ms,
            final(self).nodes_upserted == old(self).nodes_upserted + if op is NodeUpsert {
                1int
            } else {
                0int
            },
            final(self).nodes_deleted == old(self).nodes_deleted + if op is NodeDelete {
                1int
            } else {
                0int
            },
            final(self).edges_upserted == old(self).edges_upserted + if op is EdgeUpsert {
                1int
            } else {
                0int
            },
            final(self).edges_deleted == old(self).edges_deleted + match op {
                GraphOp::NodeDelete { .. } => cascaded_edges as int,
                GraphOp::EdgeDelete { .. } => 1int,
                _ => 0int,
            },
    {
        self.last_seq = seq;
        match op {
            GraphOp::NodeUpsert(_) => {
                self.nodes_upserted = self.nodes_upserted + 1;
            },
            GraphOp::NodeDelete { .. } => {
                self.nodes_deleted = self.nodes_deleted + 1;
                self.edges_deleted = self.edges_deleted + cascaded_edges;
            },
            GraphOp::EdgeUpsert(_) => {
                self.edges_upserted = self.edges_upserted + 1;
            },
            GraphOp::EdgeDelete { .. } => {
                self.edges_deleted = self.edges_deleted + 1;
            },
        }
    }
}

} // verus!
