//! Merge conflicts: the stored row of a conflict and the detail read back from it.

use vstd::prelude::*;

use crate::error::StoreError;
use crate::graph::{
    decode_tags, decode_tags_spec, opt_view, GraphEdge, GraphEdgeUpsert, GraphNode, GraphNodeUpsert,
    GraphOp,
};
use crate::text::{chars_eq_str, chars_of, string_of, strs, trim_seq, trim_str};

verus! {

broadcast use vstd::string::group_string_axioms;

/// A conflict as stored: its identity, status, and the base/theirs/ours versions flattened
/// into columns (node columns for a node conflict, edge columns for an edge conflict).
#[derive(Debug)]
pub struct GraphConflictDetailRow {
    pub kind: String,
    pub key: String,
    pub from_branch: String,
    pub into_branch: String,
    pub doc: String,
    pub status: String,
    pub created_at_ms: i64,
    pub resolved_at_ms: Option<i64>,
    pub base_seq: Option<i64>,
    pub base_ts_ms: Option<i64>,
    pub base_deleted: Option<i64>,
    pub base_node_type: Option<String>,
    pub base_title: Option<String>,
    pub base_text: Option<String>,
    pub base_tags: Option<String>,
    pub base_status: Option<String>,
    pub base_meta_json: Option<String>,
    pub base_from_id: Option<String>,
    pub base_rel: Option<String>,
    pub base_to_id: Option<String>,
    pub base_edge_meta_json: Option<String>,
    pub theirs_seq: Option<i64>,
    pub theirs_ts_ms: Option<i64>,
    pub theirs_deleted: Option<i64>,
    pub theirs_node_type: Option<String>,
    pub theirs_title: Option<String>,
    pub theirs_text: Option<String>,
    pub theirs_tags: Option<String>,
    pub theirs_status: Option<String>,
    pub theirs_meta_json: Option<String>,
    pub theirs_from_id: Option<String>,
    pub theirs_rel: Option<String>,
    pub theirs_to_id: Option<String>,
    pub theirs_edge_meta_json: Option<String>,
    pub ours_seq: Option<i64>,
    pub ours_ts_ms: Option<i64>,
    pub ours_deleted: Option<i64>,
    pub ours_node_type: Option<String>,
    pub ours_title: Option<String>,
    pub ours_text: Option<String>,
    pub ours_tags: Option<String>,
    pub ours_status: Option<String>,
    pub ours_meta_json: Option<String>,
    pub ours_from_id: Option<String>,
    pub ours_rel: Option<String>,
    pub ours_to_id: Option<String>,
    pub ours_edge_meta_json: Option<String>,
}

/// A conflict with the three versions of the node or edge it is about.
#[derive(Clone, Debug)]
pub struct GraphConflictDetail {
    pub conflict_id: String,
    pub kind: String,
    pub key: String,
    pub from_branch: String,
    pub into_branch: String,
    pub doc: String,
    pub status: String,
    pub created_at_ms: i64,
    pub resolved_at_ms: Option<i64>,
    pub base_node: Option<GraphNode>,
    pub theirs_node: Option<GraphNode>,
    pub ours_node: Option<GraphNode>,
    pub base_edge: Option<GraphEdge>,
    pub theirs_edge: Option<GraphEdge>,
    pub ours_edge: Option<GraphEdge>,
}

pub open spec fn or_zero(v: Option<i64>) -> i64 {
    match v {
        Some(x) => x,
        None => 0,
    }
}

pub open spec fn or_empty(v: Option<String>) -> Seq<char> {
    match v {
        Some(s) => s@,
        None => Seq::empty(),
    }
}

/// A node version rebuilt from its columns, when `present`: a missing type reads as empty,
/// missing numbers as zero, and a deleted flag is any non-zero value.
pub open spec fn node_snapshot_spec(
    r: Option<GraphNode>,
    present: bool,
    key: Seq<char>,
    node_type: Option<String>,
    title: Option<String>,
    text: Option<String>,
    tags: Option<String>,
    status: Option<String>,
    meta_json: Option<String>,
    deleted: Option<i64>,
    seq: Option<i64>,
    ts_ms: Option<i64>,
) -> bool {
    if !present {
        r is None
    } else {
        &&& r is Some
        &&& r->0.id@ == key
        &&& r->0.node_type@ == or_empty(node_type)
        &&& r->0.title == title
        &&& r->0.text == text
        &&& strs(r->0.tags@) == decode_tags_spec(opt_view(tags))
        &&& r->0.status == status
        &&& r->0.meta_json == meta_json
        &&& r->0.deleted == (or_zero(deleted) != 0)
        &&& r->0.last_seq == or_zero(seq)
        &&& r->0.last_ts_ms == or_zero(ts_ms)
    }
}

/// An edge version rebuilt from its columns, when `present` and all three ends are known.
pub open spec fn edge_snapshot_spec(
    r: Option<GraphEdge>,
    present: bool,
    from: Option<String>,
    rel: Option<String>,
    to: Option<String>,
    meta_json: Option<String>,
    deleted: Option<i64>,
    seq: Option<i64>,
    ts_ms: Option<i64>,
) -> bool {
    if !present || from is None || rel is None || to is None {
        r is None
    } else {
        &&& r is Some
        &&& r->0.from == from->0
        &&& r->0.rel == rel->0
        &&& r->0.to == to->0
        &&& r->0.meta_json == meta_json
        &&& r->0.deleted == (or_zero(deleted) != 0)
        &&& r->0.last_seq == or_zero(seq)
        &&& r->0.last_ts_ms == or_zero(ts_ms)
    }
}

fn i64_or_zero(v: Option<i64>) -> (r: i64)
    ensures
        r == or_zero(v),
{
    match v {
        Some(x) => x,
        None => 0,
    }
}

fn node_snapshot(
    present: bool,
    key: &str,
    node_type: Option<String>,
    title: Option<String>,
    text: Option<String>,
    tags: Option<String>,
    status: Option<String>,
    meta_json: Option<String>,
    deleted: Option<i64>,
    seq: Option<i64>,
    ts_ms: Option<i64>,
) -> (r: Option<GraphNode>)
    ensures
        node_snapshot_spec(
            r,
            present,
            key@,
            node_type,
            title,
            text,
            tags,
            status,
            meta_json,
            deleted,
            seq,
            ts_ms,
        ),
{
    if !present {
        return None;
    }
    let node_type = match node_type {
        Some(s) => s,
        None => string_of(Vec::<char>::new().as_slice()),
    };
    let tags = match &tags {
        Some(t) => decode_tags(Some(t.as_str())),
        None => decode_tags(None),
    };
    Some(
        GraphNode {
            id: string_of(chars_of(key).as_slice()),
            node_type,
            title,
            text,
            tags,
            status,
            meta_json,
            deleted: i64_or_zero(deleted) != 0,
            last_seq: i64_or_zero(seq),
            last_ts_ms: i64_or_zero(ts_ms),
        },
    )
}

fn edge_snapshot(
    present: bool,
    from: Option<String>,
    rel: Option<String>,
    to: Option<String>,
    meta_json: Option<String>,
    deleted: Option<i64>,
    seq: Option<i64>,
    ts_ms: Option<i64>,
) -> (r: Option<GraphEdge>)
    ensures
        edge_snapshot_spec(r, present, from, rel, to, meta_json, deleted, seq, ts_ms),
{
    if !present {
        return None;
    }
    match (from, rel, to) {
        (Some(from), Some(rel), Some(to)) => Some(
            GraphEdge {
                from,
                rel,
                to,
                meta_json,
                deleted: i64_or_zero(deleted) != 0,
                last_seq: i64_or_zero(seq),
                last_ts_ms: i64_or_zero(ts_ms),
            },
        ),
        _ => None,
    }
}

impl GraphConflictDetailRow {
    /// The detail of this conflict: a base version is present when its sequence number is
    /// known, theirs and ours when theirs is non-zero (a zero marks "absent").
    pub fn into_detail(self, conflict_id: &str) -> (d: GraphConflictDetail)
        ensures
            d.conflict_id@ == conflict_id@,
            d.kind == self.kind,
            d.key == self.key,
            d.from_branch == self.from_branch,
            d.into_branch == self.into_branch,
            d.doc == self.doc,
            d.status == self.status,
            d.created_at_ms == self.created_at_ms,
            d.resolved_at_ms == self.resolved_at_ms,
            node_snapshot_spec(
                d.base_node,
                self.kind@ == "node"@ && self.base_seq is Some,
                self.key@,
                self.base_node_type,
                self.base_title,
                self.base_text,
                self.base_tags,
                self.base_status,
                self.base_meta_json,
                self.base_deleted,
                self.base_seq,
                self.base_ts_ms,
            ),
            node_snapshot_spec(
                d.theirs_node,
                self.kind@ == "node"@ && or_zero(self.theirs_seq) != 0,
                self.key@,
                self.theirs_node_type,
                self.theirs_title,
                self.theirs_text,
                self.theirs_tags,
                self.theirs_status,
                self.theirs_meta_json,
                self.theirs_deleted,
                self.theirs_seq,
                self.theirs_ts_ms,
            ),
            node_snapshot_spec(
                d.ours_node,
                self.kind@ == "node"@ && or_zero(self.ours_seq) != 0,
                self.key@,
                self.ours_node_type,
                self.ours_title,
                self.ours_text,
                self.ours_tags,
                self.ours_status,
                self.ours_meta_json,
                self.ours_deleted,
                self.ours_seq,
                self.ours_ts_ms,
            ),
            edge_snapshot_spec(
                d.base_edge,
                self.kind@ == "edge"@ && self.base_seq is Some,
                self.base_from_id,
                self.base_rel,
                self.base_to_id,
                self.base_edge_meta_json,
                self.base_deleted,
                self.base_seq,
                self.base_ts_ms,
            ),
            edge_snapshot_spec(
                d.theirs_edge,
                self.kind@ == "edge"@ && or_zero(self.theirs_seq) != 0,
                self.theirs_from_id,
                self.theirs_rel,
                self.theirs_to_id,
                self.theirs_edge_meta_json,
                self.theirs_deleted,
                self.theirs_seq,
                self.theirs_ts_ms,
            ),
            edge_snapshot_spec(
                d.ours_edge,
                self.kind@ == "edge"@ && or_zero(self.ours_seq) != 0,
                self.ours_from_id,
                self.ours_rel,
                self.ours_to_id,
                self.ours_edge_meta_json,
                self.ours_deleted,
                self.ours_seq,
                self.ours_ts_ms,
            ),
    {
        let kind_chars = chars_of(self.kind.as_str());
        let is_node = chars_eq_str(kind_chars.as_slice(), "node");
        let is_edge = chars_eq_str(kind_chars.as_slice(), "edge");
        let key = self.key.as_str();
        let base_node = node_snapshot(
            is_node && self.base_seq.is_some(),
            key,
            self.base_node_type,
            self.base_title,
            self.base_text,
            self.base_tags,
            self.base_status,
            self.base_meta_json,
            self.base_deleted,
            self.base_seq,
            self.base_ts_ms,
        );
        let theirs_node = node_snapshot(
            is_node && i64_or_zero(self.theirs_seq) != 0,
            key,
            self.theirs_node_type,
            self.theirs_title,
            self.theirs_text,
            self.theirs_tags,
            self.theirs_status,
            self.theirs_meta_json,
            self.theirs_deleted,
            self.theirs_seq,
            self.theirs_ts_ms,
        );
        let ours_node = node_snapshot(
            is_node && i64_or_zero(self.ours_seq) != 0,
            key,
            self.ours_node_type,
            self.ours_title,
            self.ours_text,
            self.ours_tags,
            self.ours_status,
            self.ours_meta_json,
            self.ours_deleted,
            self.ours_seq,
            self.ours_ts_ms,
        );
        let base_edge = edge_snapshot(
            is_edge && self.base_seq.is_some(),
            self.base_from_id,
            self.base_rel,
            self.base_to_id,
            self.base_edge_meta_json,
            self.base_deleted,
            self.base_seq,
            self.base_ts_ms,
        );
        let theirs_edge = edge_snapshot(
            is_edge && i64_or_zero(self.theirs_seq) != 0,
            self.theirs_from_id,
            self.theirs_rel,
            self.theirs_to_id,
            self.theirs_edge_meta_json,
            self.theirs_deleted,
            self.theirs_seq,
            self.theirs_ts_ms,
        );
        let ours_edge = edge_snapshot(
            is_edge && i64_or_zero(self.ours_seq) != 0,
            self.ours_from_id,
            self.ours_rel,
            self.ours_to_id,
            self.ours_edge_meta_json,
            self.ours_deleted,
            self.ours_seq,
            self.ours_ts_ms,
        );
        GraphConflictDetail {
            conflict_id: string_of(chars_of(conflict_id).as_slice()),
            kind: self.kind,
            key: self.key,
            from_branch: self.from_branch,
            into_branch: self.into_branch,
            doc: self.doc,
            status: self.status,
            created_at_ms: self.created_at_ms,
            resolved_at_ms: self.resolved_at_ms,
            base_node,
            theirs_node,
            ours_node,
            base_edge,
            theirs_edge,
            ours_edge,
        }
    }
}

/// What resolving a conflict does: keep the target's version, or write theirs into it.
#[derive(Debug)]
pub enum ConflictPlan {
    UseInto,
    ApplyTheirs(GraphOp),
}

/// The resolution asked for must not be blank.
pub fn check_resolution(resolution: &str) -> (r: Result<(), StoreError>)
    ensures
        trim_seq(resolution@).len() == 0 <==> (r matches Err(StoreError::InvalidInput(m)) && m@
            == "resolution must not be empty"@),
        r is Ok <==> trim_seq(resolution@).len() > 0,
{
    if trim_str(resolution).len() == 0 {
        return Err(StoreError::InvalidInput("resolution must not be empty"));
    }
    Ok(())
}

fn copy_string(s: &String) -> (r: String)
    ensures
        r@ == s@,
{
    string_of(chars_of(s.as_str()).as_slice())
}

fn copy_opt_string(s: &Option<String>) -> (r: Option<String>)
    ensures
        opt_view(r) == opt_view(*s),
{
    match s {
        Some(v) => Some(copy_string(v)),
        None => None,
    }
}

fn copy_strings(v: &Vec<String>) -> (r: Vec<String>)
    ensures
        strs(r@) == strs(v@),
{
    let mut out: Vec<String> = Vec::new();
    let mut i: usize = 0;
    while i < v.len()
        invariant
            i <= v@.len(),
            strs(out@) == strs(v@).take(i as int),
        decreases v@.len() - i,
    {
        let ghost before = strs(out@);
        out.push(copy_string(&v[i]));
        assert(strs(out@) =~= before.push(v@[i as int]@));
        assert(strs(v@).take(i + 1) =~= strs(v@).take(i as int).push(v@[i as int]@));
        i = i + 1;
    }
    assert(strs(v@).take(v@.len() as int) =~= strs(v@));
    out
}

/// The upsert that writes node `n` as it is.
pub open spec fn node_upsert_of(u: GraphNodeUpsert, n: GraphNode) -> bool {
    &&& u.id@ == n.id@
    &&& u.node_type@ == n.node_type@
    &&& opt_view(u.title) == opt_view(n.title)
    &&& opt_view(u.text) == opt_view(n.text)
    &&& strs(u.tags@) == strs(n.tags@)
    &&& opt_view(u.status) == opt_view(n.status)
    &&& opt_view(u.meta_json) == opt_view(n.meta_json)
}

/// The upsert that writes edge `e` as it is.
pub open spec fn edge_upsert_of(u: GraphEdgeUpsert, e: GraphEdge) -> bool {
    &&& u.from@ == e.from@
    &&& u.rel@ == e.rel@
    &&& u.to@ == e.to@
    &&& opt_view(u.meta_json) == opt_view(e.meta_json)
}

/// What `use_from` gives: their node or edge as it is, when the conflict has it.
pub open spec fn use_from_outcome(detail: GraphConflictDetail, r: Result<ConflictPlan, StoreError>) -> bool {
    if detail.kind@ == "node"@ {
        match detail.theirs_node {
            Some(n) => r matches Ok(ConflictPlan::ApplyTheirs(GraphOp::NodeUpsert(u))) && node_upsert_of(u, n),
            None => r matches Err(StoreError::InvalidInput(m)) && m@ == "conflict has no theirs node snapshot"@,
        }
    } else if detail.kind@ == "edge"@ {
        match detail.theirs_edge {
            Some(e) => r matches Ok(ConflictPlan::ApplyTheirs(GraphOp::EdgeUpsert(u))) && edge_upsert_of(u, e),
            None => r matches Err(StoreError::InvalidInput(m)) && m@ == "conflict has no theirs edge snapshot"@,
        }
    } else {
        r matches Err(StoreError::InvalidInput(m)) && m@ == "unknown conflict kind"@
    }
}

/// How to resolve an open conflict: `use_into` keeps the target as it is; `use_from` writes
/// their version of the node or edge. A conflict that is no longer open cannot be resolved.
pub fn plan_conflict_resolution(detail: &GraphConflictDetail, resolution: &str) -> (r: Result<
    ConflictPlan,
    StoreError,
>)
    ensures
        detail.status@ != "open"@ ==> r matches Err(StoreError::ConflictAlreadyResolved),
        detail.status@ == "open"@ && resolution@ == "use_into"@ ==> r matches Ok(ConflictPlan::UseInto),
        detail.status@ == "open"@ && resolution@ != "use_into"@ && resolution@ != "use_from"@ ==> (r matches Err(
            StoreError::InvalidInput(m),
        ) && m@ == "resolution must be use_from|use_into"@),
        detail.status@ == "open"@ && resolution@ == "use_from"@ ==> use_from_outcome(*detail, r),
{
    proof {
        reveal_strlit("use_into");
        reveal_strlit("use_from");
        reveal_strlit("node");
        reveal_strlit("edge");
        assert("use_into"@[4] != "use_from"@[4]);
        assert("node"@[0] != "edge"@[0]);
    }
    let status = chars_of(detail.status.as_str());
    if !chars_eq_str(status.as_slice(), "open") {
        return Err(StoreError::ConflictAlreadyResolved);
    }
    let res = chars_of(resolution);
    if chars_eq_str(res.as_slice(), "use_into") {
        return Ok(ConflictPlan::UseInto);
    }
    if !chars_eq_str(res.as_slice(), "use_from") {
        return Err(StoreError::InvalidInput("resolution must be use_from|use_into"));
    }
    let kind = chars_of(detail.kind.as_str());
    if chars_eq_str(kind.as_slice(), "node") {
        match &detail.theirs_node {
            Some(n) => Ok(
                ConflictPlan::ApplyTheirs(
                    GraphOp::NodeUpsert(
                        GraphNodeUpsert {
                            id: copy_string(&n.id),
                            node_type: copy_string(&n.node_type),
                            title: copy_opt_string(&n.title),
                            text: copy_opt_string(&n.text),
                            tags: copy_strings(&n.tags),
                            status: copy_opt_string(&n.status),
                            meta_json: copy_opt_string(&n.meta_json),
                        },
                    ),
                ),
            ),
            None => Err(StoreError::InvalidInput("conflict has no theirs node snapshot")),
        }
    } else if chars_eq_str(kind.as_slice(), "edge") {
        match &detail.theirs_edge {
            Some(e) => Ok(
                ConflictPlan::ApplyTheirs(
                    GraphOp::EdgeUpsert(
                        GraphEdgeUpsert {
                            from: copy_string(&e.from),
                            rel: copy_string(&e.rel),
                            to: copy_string(&e.to),
                            meta_json: copy_opt_string(&e.meta_json),
                        },
                    ),
                ),
            ),
            None => Err(StoreError::InvalidInput("conflict has no theirs edge snapshot")),
        }
    } else {
        Err(StoreError::InvalidInput("unknown conflict kind"))
    }
}

/// The dedup key of the write that resolves conflict `conflict_id`.
pub fn resolve_source_event_id(conflict_id: &str) -> (r: String)
    ensures
        r@ == "graph_conflict_resolve:"@ + conflict_id@,
{
    let mut out: Vec<char> = Vec::new();
    crate::text::append_str(&mut out, "graph_conflict_resolve:");
    crate::text::append_str(&mut out, conflict_id);
    string_of(out.as_slice())
}

} // verus!
