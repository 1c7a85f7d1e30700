//! Merging a branch's graph back into its base: the three-way decision for each changed node
//! or edge, the window of changes scanned, and the paging of results.

use vstd::prelude::*;

use crate::conflict::GraphConflictDetail;
use crate::error::StoreError;
use crate::graph::{
    edge_semantic_eq_spec, graph_edge_semantic_eq, graph_node_semantic_eq, node_semantic_eq_spec,
    GraphEdge, GraphNode,
};
use crate::num::{dec_int, i64_to_dec};
use crate::text::{append_chars, append_str, chars_of, string_of, strs, trim_seq, trim_str};

verus! {

broadcast use vstd::string::group_string_axioms;

/// What merging one changed node or edge does to the target branch.
#[derive(Clone, Copy, Debug, PartialEq, Eq, Structural)]
pub enum MergeDecision {
    /// Nothing to bring over: the target already says what the source says, or only the
    /// target changed.
    Skip,
    /// Only the source changed since the base: its version is written to the target.
    FastForward,
    /// Both sides changed differently: a conflict is recorded.
    Conflict,
}

pub open spec fn opt_node(n: Option<&GraphNode>) -> Option<GraphNode> {
    match n {
        None => None,
        Some(x) => Some(*x),
    }
}

pub open spec fn opt_edge(e: Option<&GraphEdge>) -> Option<GraphEdge> {
    match e {
        None => None,
        Some(x) => Some(*x),
    }
}

/// The three-way decision for a node: `base` at the fork, `theirs` on the source branch,
/// `ours` on the target branch.
pub open spec fn node_merge_spec(
    base: Option<GraphNode>,
    theirs: GraphNode,
    ours: Option<GraphNode>,
) -> MergeDecision {
    if node_semantic_eq_spec(base, Some(theirs)) || node_semantic_eq_spec(ours, Some(theirs)) {
        MergeDecision::Skip
    } else if node_semantic_eq_spec(base, ours) {
        MergeDecision::FastForward
    } else {
        MergeDecision::Conflict
    }
}

/// The three-way decision for an edge.
pub open spec fn edge_merge_spec(
    base: Option<GraphEdge>,
    theirs: GraphEdge,
    ours: Option<GraphEdge>,
) -> MergeDecision {
    if edge_semantic_eq_spec(base, Some(theirs)) || edge_semantic_eq_spec(ours, Some(theirs)) {
        MergeDecision::Skip
    } else if edge_semantic_eq_spec(base, ours) {
        MergeDecision::FastForward
    } else {
        MergeDecision::Conflict
    }
}

pub fn decide_node_merge(base: Option<&GraphNode>, theirs: &GraphNode, ours: Option<&GraphNode>) -> (r:
    MergeDecision)
    ensures
        r == node_merge_spec(opt_node(base), *theirs, opt_node(ours)),
{
    if graph_node_semantic_eq(base, Some(theirs)) || graph_node_semantic_eq(ours, Some(theirs)) {
        MergeDecision::Skip
    } else if graph_node_semantic_eq(base, ours) {
        MergeDecision::FastForward
    } else {
        MergeDecision::Conflict
    }
}

pub fn decide_edge_merge(base: Option<&GraphEdge>, theirs: &GraphEdge, ours: Option<&GraphEdge>) -> (r:
    MergeDecision)
    ensures
        r == edge_merge_spec(opt_edge(base), *theirs, opt_edge(ours)),
{
    if graph_edge_semantic_eq(base, Some(theirs)) || graph_edge_semantic_eq(ours, Some(theirs)) {
        MergeDecision::Skip
    } else if graph_edge_semantic_eq(base, ours) {
        MergeDecision::FastForward
    } else {
        MergeDecision::Conflict
    }
}

/// Three-way merge of a node: a change the target already has is skipped (so merging again
/// changes nothing); a change only the target made is kept; a change only the source made is
/// brought over; changes made on both sides that differ are conflicts.
pub proof fn lemma_node_three_way(base: Option<GraphNode>, theirs: GraphNode, ours: Option<GraphNode>)
    ensures
        node_semantic_eq_spec(ours, Some(theirs)) ==> node_merge_spec(base, theirs, ours)
            == MergeDecision::Skip,
        node_semantic_eq_spec(base, Some(theirs)) ==> node_merge_spec(base, theirs, ours)
            == MergeDecision::Skip,
        (!node_semantic_eq_spec(base, Some(theirs)) && node_semantic_eq_spec(base, ours))
            ==> node_merge_spec(base, theirs, ours) == MergeDecision::FastForward,
        (!node_semantic_eq_spec(base, Some(theirs)) && !node_semantic_eq_spec(ours, Some(theirs))
            && !node_semantic_eq_spec(base, ours)) ==> node_merge_spec(base, theirs, ours)
            == MergeDecision::Conflict,
{
    crate::graph::lemma_node_semantic_eq_equivalence(base, ours);
    crate::graph::lemma_node_semantic_eq_equivalence(ours, Some(theirs));
    if !node_semantic_eq_spec(base, Some(theirs)) && node_semantic_eq_spec(base, ours) {
        if node_semantic_eq_spec(ours, Some(theirs)) {
            lemma_node_semantic_eq_transitive(base, ours, Some(theirs));
        }
    }
}

/// The content of a node version as plain values: id, deletion mark, type, title, text,
/// tags, status and meta (trimmed); sequence numbers and times are not content.
pub open spec fn node_content(n: GraphNode) -> (
    Seq<char>,
    bool,
    Seq<char>,
    Option<Seq<char>>,
    Option<Seq<char>>,
    Seq<Seq<char>>,
    Option<Seq<char>>,
    Option<Seq<char>>,
) {
    (
        n.id@,
        n.deleted,
        n.node_type@,
        match n.title {
            Some(t) => Some(t@),
            None => None,
        },
        match n.text {
            Some(t) => Some(t@),
            None => None,
        },
        n.tags@.map_values(|t: String| t@),
        match n.status {
            Some(t) => Some(t@),
            None => None,
        },
        match n.meta_json {
            Some(t) => Some(trim_seq(t@)),
            None => None,
        },
    )
}

/// The content of an edge version as plain values: its ends, relation, deletion mark and
/// meta (trimmed).
pub open spec fn edge_content(e: GraphEdge) -> (Seq<char>, Seq<char>, Seq<char>, bool, Option<Seq<char>>) {
    (
        e.from@,
        e.rel@,
        e.to@,
        e.deleted,
        match e.meta_json {
            Some(t) => Some(trim_seq(t@)),
            None => None,
        },
    )
}

/// Two node versions are the same to a merge or a diff exactly when their content is: a
/// change to any content field (the text among them) is a change.
pub proof fn lemma_node_semantic_eq_is_content_eq(a: GraphNode, b: GraphNode)
    ensures
        node_semantic_eq_spec(Some(a), Some(b)) <==> node_content(a) == node_content(b),
{
    if node_content(a) == node_content(b) {
        assert(strs(a.tags@) =~= node_content(a).5);
        assert(strs(b.tags@) =~= node_content(b).5);
    }
    if node_semantic_eq_spec(Some(a), Some(b)) {
        assert(node_content(a).5 =~= node_content(b).5);
    }
}

/// Two edge versions are the same to a merge or a diff exactly when their content is.
pub proof fn lemma_edge_semantic_eq_is_content_eq(a: GraphEdge, b: GraphEdge)
    ensures
        edge_semantic_eq_spec(Some(a), Some(b)) <==> edge_content(a) == edge_content(b),
{
}

/// A node that only the source branch changed is brought over: when the target still holds
/// the base version and the source's version differs from it in content, the merge
/// fast-forwards; when the source's content equals the base's, the merge skips it.
pub proof fn lemma_node_source_only_change(base: GraphNode, theirs: GraphNode)
    ensures
        node_content(base) != node_content(theirs) ==> node_merge_spec(Some(base), theirs, Some(base))
            == MergeDecision::FastForward,
        node_content(base) == node_content(theirs) ==> node_merge_spec(Some(base), theirs, Some(base))
            == MergeDecision::Skip,
{
    lemma_node_semantic_eq_is_content_eq(base, theirs);
    crate::graph::lemma_node_semantic_eq_equivalence(Some(base), Some(base));
}

/// An edge that only the source branch changed is brought over, as for nodes.
pub proof fn lemma_edge_source_only_change(base: GraphEdge, theirs: GraphEdge)
    ensures
        edge_content(base) != edge_content(theirs) ==> edge_merge_spec(Some(base), theirs, Some(base))
            == MergeDecision::FastForward,
        edge_content(base) == edge_content(theirs) ==> edge_merge_spec(Some(base), theirs, Some(base))
            == MergeDecision::Skip,
{
    lemma_edge_semantic_eq_is_content_eq(base, theirs);
}

/// Semantic equality of node versions is transitive.
pub proof fn lemma_node_semantic_eq_transitive(a: Option<GraphNode>, b: Option<GraphNode>, c: Option<GraphNode>)
    requires
        node_semantic_eq_spec(a, b),
        node_semantic_eq_spec(b, c),
    ensures
        node_semantic_eq_spec(a, c),
{
}

/// Three-way merge of an edge, as for nodes.
pub proof fn lemma_edge_three_way(base: Option<GraphEdge>, theirs: GraphEdge, ours: Option<GraphEdge>)
    ensures
        edge_semantic_eq_spec(ours, Some(theirs)) ==> edge_merge_spec(base, theirs, ours)
            == MergeDecision::Skip,
        edge_semantic_eq_spec(base, Some(theirs)) ==> edge_merge_spec(base, theirs, ours)
            == MergeDecision::Skip,
        (!edge_semantic_eq_spec(base, Some(theirs)) && edge_semantic_eq_spec(base, ours))
            ==> edge_merge_spec(base, theirs, ours) == MergeDecision::FastForward,
        (!edge_semantic_eq_spec(base, Some(theirs)) && !edge_semantic_eq_spec(ours, Some(theirs))
            && !edge_semantic_eq_spec(base, ours)) ==> edge_merge_spec(base, theirs, ours)
            == MergeDecision::Conflict,
{
}

/// The requested branches and document must not be blank.
pub fn check_merge_back_request(from_branch: &str, into_branch: &str, doc: &str) -> (r: Result<(), StoreError>)
    ensures
        trim_seq(from_branch@).len() == 0 ==> (r matches Err(StoreError::InvalidInput(m))
            && m@ == "from_branch must not be empty"@),
        trim_seq(from_branch@).len() > 0 && trim_seq(into_branch@).len() == 0 ==> (r matches Err(
            StoreError::InvalidInput(m),
        ) && m@ == "into_branch must not be empty"@),
        trim_seq(from_branch@).len() > 0 && trim_seq(into_branch@).len() > 0 && trim_seq(doc@).len()
            == 0 ==> (r matches Err(StoreError::InvalidInput(m)) && m@ == "doc must not be empty"@),
        trim_seq(from_branch@).len() > 0 && trim_seq(into_branch@).len() > 0 && trim_seq(doc@).len()
            > 0 ==> r is Ok,
{
    if trim_str(from_branch).len() == 0 {
        return Err(StoreError::InvalidInput("from_branch must not be empty"));
    }
    if trim_str(into_branch).len() == 0 {
        return Err(StoreError::InvalidInput("into_branch must not be empty"));
    }
    if trim_str(doc).len() == 0 {
        return Err(StoreError::InvalidInput("doc must not be empty"));
    }
    Ok(())
}

/// The branches of a merge back: both must exist, and the source branch must have been made
/// from the branch it is merged into (its base, with the sequence number it forked at).
/// Returns the fork's cutoff.
pub fn check_merge_back_branches(
    from_exists: bool,
    into_exists: bool,
    from_base: &Option<(String, i64)>,
    into_branch: &str,
) -> (r: Result<i64, StoreError>)
    ensures
        !(from_exists && into_exists) ==> r matches Err(StoreError::UnknownBranch),
        from_exists && into_exists ==> match from_base {
            None => r matches Err(StoreError::MergeNotSupported),
            Some((base, cutoff)) => if base@ == into_branch@ {
                r == Ok::<i64, StoreError>(*cutoff)
            } else {
                r matches Err(StoreError::MergeNotSupported)
            },
        },
{
    if !from_exists || !into_exists {
        return Err(StoreError::UnknownBranch);
    }
    match from_base {
        None => Err(StoreError::MergeNotSupported),
        Some((base, cutoff)) => {
            let bv = crate::text::chars_of(base.as_str());
            if crate::text::chars_eq_str(bv.as_slice(), into_branch) {
                Ok(*cutoff)
            } else {
                Err(StoreError::MergeNotSupported)
            }
        },
    }
}

/// The part of a branch's history one merge call looks at.
#[derive(Debug)]
pub struct MergeWindow {
    /// Only changes before this sequence number (the cursor; unbounded without one).
    pub before_seq: i64,
    /// How many changes are merged, skipped or found in conflict, at most.
    pub limit: i64,
    /// How many changes are scanned, at most.
    pub scan_limit: i64,
}

pub fn merge_back_window(cursor: Option<i64>, limit: usize) -> (w: MergeWindow)
    ensures
        w.before_seq == match cursor {
            Some(c) => c,
            None => i64::MAX,
        },
        w.limit == if limit < 1 {
            1
        } else if limit > 200 {
            200
        } else {
            limit as int
        },
        w.scan_limit == if w.limit * 5 > 1000 {
            1000
        } else {
            w.limit * 5
        },
{
    let before_seq = match cursor {
        Some(c) => c,
        None => i64::MAX,
    };
    let l: i64 = if limit < 1 {
        1
    } else if limit > 200 {
        200
    } else {
        limit as i64
    };
    let x = l * 5;
    let scan_limit = if x < l {
        l
    } else if x > 1000 {
        1000
    } else {
        x
    };
    MergeWindow { before_seq, limit: l, scan_limit }
}

/// `graph_merge:<from>:<seq>:node:<id>`: the id under which a merged node change is recorded.
pub open spec fn node_merge_key_spec(from_branch: Seq<char>, seq: int, key: Seq<char>) -> Seq<char> {
    "graph_merge:"@ + from_branch + ":"@ + dec_int(seq) + ":node:"@ + key
}

pub fn node_merge_key(from_branch: &str, seq: i64, key: &str) -> (r: String)
    ensures
        r@ == node_merge_key_spec(from_branch@, seq as int, key@),
{
    let mut out: Vec<char> = Vec::new();
    append_str(&mut out, "graph_merge:");
    append_str(&mut out, from_branch);
    append_str(&mut out, ":");
    let d = i64_to_dec(seq);
    append_chars(&mut out, d.as_slice());
    append_str(&mut out, ":node:");
    append_str(&mut out, key);
    string_of(out.as_slice())
}

/// `<from>|<rel>|<to>`: the key of an edge.
pub open spec fn edge_key_spec(from: Seq<char>, rel: Seq<char>, to: Seq<char>) -> Seq<char> {
    from + "|"@ + rel + "|"@ + to
}

pub fn edge_key_string(from: &str, rel: &str, to: &str) -> (r: String)
    ensures
        r@ == edge_key_spec(from@, rel@, to@),
{
    let mut out: Vec<char> = Vec::new();
    append_str(&mut out, from);
    append_str(&mut out, "|");
    append_str(&mut out, rel);
    append_str(&mut out, "|");
    append_str(&mut out, to);
    string_of(out.as_slice())
}

/// `graph_merge:<from>:<seq>:edge:<from>|<rel>|<to>`.
pub open spec fn edge_merge_key_spec(from_branch: Seq<char>, seq: int, key: Seq<char>) -> Seq<char> {
    "graph_merge:"@ + from_branch + ":"@ + dec_int(seq) + ":edge:"@ + key
}

pub fn edge_merge_key(from_branch: &str, seq: i64, key: &str) -> (r: String)
    ensures
        r@ == edge_merge_key_spec(from_branch@, seq as int, key@),
{
    let mut out: Vec<char> = Vec::new();
    append_str(&mut out, "graph_merge:");
    append_str(&mut out, from_branch);
    append_str(&mut out, ":");
    let d = i64_to_dec(seq);
    append_chars(&mut out, d.as_slice());
    append_str(&mut out, ":edge:");
    append_str(&mut out, key);
    string_of(out.as_slice())
}

/// How many nodes and edges a merge found changed, and how many of their fields.
#[derive(Debug)]
pub struct GraphMergeDiffSummary {
    pub nodes_changed: usize,
    pub edges_changed: usize,
    pub node_fields_changed: usize,
    pub edge_fields_changed: usize,
}

/// The running totals of one merge call.
#[derive(Debug)]
pub struct MergeBackState {
    pub merged: usize,
    pub skipped: usize,
    pub conflicts_detected: usize,
    pub conflicts_created: usize,
    pub conflict_ids: Vec<String>,
    pub conflicts: Vec<GraphConflictDetail>,
    pub processed: usize,
    pub diff_summary: GraphMergeDiffSummary,
}

impl MergeBackState {
    /// Nothing counted yet.
    pub fn new() -> (t: MergeBackState)
        ensures
            t.merged == 0,
            t.skipped == 0,
            t.conflicts_detected == 0,
            t.conflicts_created == 0,
            t.conflict_ids@.len() == 0,
            t.conflicts@.len() == 0,
            t.processed == 0,
            t.diff_summary.nodes_changed == 0,
            t.diff_summary.edges_changed == 0,
            t.diff_summary.node_fields_changed == 0,
            t.diff_summary.edge_fields_changed == 0,
    {
        MergeBackState {
            merged: 0,
            skipped: 0,
            conflicts_detected: 0,
            conflicts_created: 0,
            conflict_ids: Vec::new(),
            conflicts: Vec::new(),
            processed: 0,
            diff_summary: GraphMergeDiffSummary {
                nodes_changed: 0,
                edges_changed: 0,
                node_fields_changed: 0,
                edge_fields_changed: 0,
            },
        }
    }

    /// A change that needs no write: already in the target, or unchanged since the base.
    pub fn record_skip(&mut self)
        requires
            old(self).skipped < usize::MAX,
        ensures
            final(self).skipped == old(self).skipped + 1,
            final(self).merged == old(self).merged,
            final(self).conflicts_detected == old(self).conflicts_detected,
            final(self).conflicts_created == old(self).conflicts_created,
            final(self).conflict_ids@ == old(self).conflict_ids@,
            final(self).conflicts@ == old(self).conflicts@,
            final(self).processed == old(self).processed,
            final(self).diff_summary == old(self).diff_summary,
    {
        self.skipped = self.skipped + 1;
    }

    /// A node (`is_node`) or edge that differs from the base in `fields` fields.
    pub fn record_change(&mut self, is_node: bool, fields: usize)
        requires
            is_node ==> old(self).diff_summary.nodes_changed < usize::MAX,
            is_node ==> old(self).diff_summary.node_fields_changed + fields <= usize::MAX,
            !is_node ==> old(self).diff_summary.edges_changed < usize::MAX,
            !is_node ==> old(self).diff_summary.edge_fields_changed + fields <= usize::MAX,
        ensures
            final(self).diff_summary.nodes_changed == old(self).diff_summary.nodes_changed + if is_node {
                1int
            } else {
                0int
            },
            final(self).diff_summary.node_fields_changed == old(self).diff_summary.node_fields_changed
                + if is_node {
                fields as int
            } else {
                0int
            },
            final(self).diff_summary.edges_changed == old(self).diff_summary.edges_changed + if is_node {
                0int
            } else {
                1int
            },
            final(self).diff_summary.edge_fields_changed == old(self).diff_summary.edge_fields_changed
                + if is_node {
                0int
            } else {
                fields as int
            },
            final(self).merged == old(self).merged,
            final(self).skipped == old(self).skipped,
            final(self).conflicts_detected == old(self).conflicts_detected,
            final(self).conflicts_created == old(self).conflicts_created,
            final(self).conflict_ids@ == old(self).conflict_ids@,
            final(self).conflicts@ == old(self).conflicts@,
            final(self).processed == old(self).processed,
    {
        if is_node {
            self.diff_summary.nodes_changed = self.diff_summary.nodes_changed + 1;
            self.diff_summary.node_fields_changed = self.diff_summary.node_fields_changed + fields;
        } else {
            self.diff_summary.edges_changed = self.diff_summary.edges_changed + 1;
            self.diff_summary.edge_fields_changed = self.diff_summary.edge_fields_changed + fields;
        }
    }

    /// A fast-forward: counted as merged when the write went in (or in a dry run), as
    /// skipped when the target already held it.
    pub fn record_fast_forward(&mut self, written: bool)
        requires
            written ==> old(self).merged < usize::MAX,
            !written ==> old(self).skipped < usize::MAX,
        ensures
            final(self).merged == old(self).merged + if written {
                1int
            } else {
                0int
            },
            final(self).skipped == old(self).skipped + if written {
                0int
            } else {
                1int
            },
            final(self).conflicts_detected == old(self).conflicts_detected,
            final(self).conflicts_created == old(self).conflicts_created,
            final(self).conflict_ids@ == old(self).conflict_ids@,
            final(self).conflicts@ == old(self).conflicts@,
            final(self).processed == old(self).processed,
            final(self).diff_summary == old(self).diff_summary,
    {
        if written {
            self.merged = self.merged + 1;
        } else {
            self.skipped = self.skipped + 1;
        }
    }

    /// An open conflict: listed with its id, and counted as created when this call stored it.
    pub fn record_conflict(&mut self, detail: GraphConflictDetail, created: bool)
        requires
            old(self).conflicts_detected < usize::MAX,
            created ==> old(self).conflicts_created < usize::MAX,
        ensures
            final(self).conflicts_detected == old(self).conflicts_detected + 1,
            final(self).conflicts_created == old(self).conflicts_created + if created {
                1int
            } else {
                0int
            },
            final(self).conflict_ids@.len() == old(self).conflict_ids@.len() + 1,
            final(self).conflict_ids@.drop_last() == old(self).conflict_ids@,
            final(self).conflict_ids@.last()@ == detail.conflict_id@,
            final(self).conflicts@ == old(self).conflicts@.push(detail),
            final(self).merged == old(self).merged,
            final(self).skipped == old(self).skipped,
            final(self).processed == old(self).processed,
            final(self).diff_summary == old(self).diff_summary,
    {
        if created {
            self.conflicts_created = self.conflicts_created + 1;
        }
        self.conflicts_detected = self.conflicts_detected + 1;
        let id = string_of(chars_of(detail.conflict_id.as_str()).as_slice());
        self.conflict_ids.push(id);
        self.conflicts.push(detail);
    }

    /// Enough changes were merged, skipped or found in conflict.
    pub fn reached_limit(&self, limit: i64) -> (r: bool)
        ensures
            r == (self.merged + self.skipped + self.conflicts_detected >= limit),
    {
        (self.merged as i128) + (self.skipped as i128) + (self.conflicts_detected as i128)
            >= limit as i128
    }
}

/// Whether more changes are left after `processed` of the `last_seqs.len()` scanned, and the
/// cursor to continue from: the sequence number of the last change processed.
pub open spec fn page_end_spec(last_seqs: Seq<i64>, processed: nat) -> (bool, Option<i64>) {
    let has_more = last_seqs.len() > processed;
    let at: int = if processed == 0 {
        0
    } else {
        processed - 1
    };
    (has_more, if has_more && at < last_seqs.len() {
        Some(last_seqs[at])
    } else {
        None
    })
}

pub fn page_end(last_seqs: &[i64], processed: usize) -> (r: (bool, Option<i64>))
    ensures
        r == page_end_spec(last_seqs@, processed as nat),
{
    let has_more = last_seqs.len() > processed;
    let at = if processed == 0 {
        0
    } else {
        processed - 1
    };
    let next = if has_more && at < last_seqs.len() {
        Some(last_seqs[at])
    } else {
        None
    };
    (has_more, next)
}

/// Interleaving node and edge changes, newest first, up to `limit`: `true` takes the next
/// node, `false` the next edge; on equal sequence numbers the node goes first.
pub open spec fn interleave_spec(nodes: Seq<i64>, edges: Seq<i64>, limit: nat) -> Seq<bool>
    decreases limit, nodes.len() + edges.len(),
{
    if limit == 0 || (nodes.len() == 0 && edges.len() == 0) {
        Seq::empty()
    } else {
        let take_node = nodes.len() > 0 && (edges.len() == 0 || nodes[0] >= edges[0]);
        if take_node {
            seq![true] + interleave_spec(nodes.drop_first(), edges, (limit - 1) as nat)
        } else {
            seq![false] + interleave_spec(nodes, edges.drop_first(), (limit - 1) as nat)
        }
    }
}

pub fn interleave_by_seq(nodes: &[i64], edges: &[i64], limit: usize) -> (r: Vec<bool>)
    ensures
        r@ == interleave_spec(nodes@, edges@, limit as nat),
{
    let mut out: Vec<bool> = Vec::new();
    let mut i: usize = 0;
    let mut j: usize = 0;
    assert(nodes@.skip(0) =~= nodes@);
    assert(edges@.skip(0) =~= edges@);
    while out.len() < limit && (i < nodes.len() || j < edges.len())
        invariant
            i <= nodes@.len(),
            j <= edges@.len(),
            out@.len() <= limit,
            out@ + interleave_spec(nodes@.skip(i as int), edges@.skip(j as int), (limit - out@.len()) as nat)
                == interleave_spec(nodes@, edges@, limit as nat),
        decreases nodes@.len() + edges@.len() - i - j,
    {
        let take_node = i < nodes.len() && (j >= edges.len() || nodes[i] >= edges[j]);
        let ghost ns = nodes@.skip(i as int);
        let ghost es = edges@.skip(j as int);
        let ghost rem = (limit - out@.len()) as nat;
        if take_node {
            assert(ns.drop_first() =~= nodes@.skip(i + 1));
            out.push(true);
            i = i + 1;
        } else {
            assert(es.drop_first() =~= edges@.skip(j + 1));
            out.push(false);
            j = j + 1;
        }
        assert(out@ + interleave_spec(nodes@.skip(i as int), edges@.skip(j as int), (limit - out@.len()) as nat)
            =~= interleave_spec(nodes@, edges@, limit as nat));
    }
    proof {
        let rem = (limit - out@.len()) as nat;
        assert(interleave_spec(nodes@.skip(i as int), edges@.skip(j as int), rem) =~= Seq::<bool>::empty());
    }
    assert(out@ + Seq::<bool>::empty() =~= out@);
    out
}

/// What the store answered while merging one candidate: whether the version write went in
/// (it does not when the target already holds the same merge key), whether a conflict with
/// the same signature was already resolved, and whether a new conflict row went in.
#[derive(Clone, Copy, Debug)]
pub struct MergeAnswer {
    pub write_went_in: bool,
    pub resolved_before: bool,
    pub conflict_inserted: bool,
}

/// The counts of one merge page.
#[derive(Clone, Copy, Debug)]
pub struct MergeTally {
    pub merged: usize,
    pub skipped: usize,
    pub conflicts_detected: usize,
    pub conflicts_created: usize,
    pub processed: usize,
    /// Versions and conflict rows written to the target.
    pub writes: usize,
}

/// The counts after one more candidate.
pub open spec fn step_tally(t: MergeTally, d: MergeDecision, dry_run: bool, a: MergeAnswer) -> MergeTally {
    match d {
        MergeDecision::Skip => MergeTally { skipped: (t.skipped + 1) as usize, processed: (t.processed + 1) as usize, ..t },
        MergeDecision::FastForward => if dry_run {
            MergeTally { merged: (t.merged + 1) as usize, processed: (t.processed + 1) as usize, ..t }
        } else if a.write_went_in {
            MergeTally {
                merged: (t.merged + 1) as usize,
                processed: (t.processed + 1) as usize,
                writes: (t.writes + 1) as usize,
                ..t
            }
        } else {
            MergeTally { skipped: (t.skipped + 1) as usize, processed: (t.processed + 1) as usize, ..t }
        },
        MergeDecision::Conflict => if a.resolved_before {
            MergeTally { skipped: (t.skipped + 1) as usize, processed: (t.processed + 1) as usize, ..t }
        } else if !dry_run && a.conflict_inserted {
            MergeTally {
                conflicts_detected: (t.conflicts_detected + 1) as usize,
                conflicts_created: (t.conflicts_created + 1) as usize,
                processed: (t.processed + 1) as usize,
                writes: (t.writes + 1) as usize,
                ..t
            }
        } else {
            MergeTally {
                conflicts_detected: (t.conflicts_detected + 1) as usize,
                processed: (t.processed + 1) as usize,
                ..t
            }
        },
    }
}

/// The counts of a page that stops once `limit` candidates were counted.
pub open spec fn run_tally(ds: Seq<MergeDecision>, ans: Seq<MergeAnswer>, dry_run: bool, n: nat) -> MergeTally
    decreases n,
{
    if n == 0 {
        MergeTally { merged: 0, skipped: 0, conflicts_detected: 0, conflicts_created: 0, processed: 0, writes: 0 }
    } else {
        step_tally(run_tally(ds, ans, dry_run, (n - 1) as nat), ds[n - 1], dry_run, ans[n - 1])
    }
}

proof fn lemma_run_tally_counts(ds: Seq<MergeDecision>, ans: Seq<MergeAnswer>, dry_run: bool, n: nat)
    requires
        n <= usize::MAX,
    ensures
        ({
            let t = run_tally(ds, ans, dry_run, n);
            &&& t.processed == n
            &&& t.merged + t.skipped + t.conflicts_detected == n
            &&& t.conflicts_created <= t.conflicts_detected
            &&& t.writes <= n
            &&& dry_run ==> t.writes == 0 && t.conflicts_created == 0
        }),
    decreases n,
{
    if n > 0 {
        lemma_run_tally_counts(ds, ans, dry_run, (n - 1) as nat);
    }
}

/// Counts one more candidate of a merge page.
pub fn merge_step(t: &mut MergeTally, d: MergeDecision, dry_run: bool, a: MergeAnswer)
    requires
        old(t).processed < usize::MAX,
        old(t).merged + old(t).skipped + old(t).conflicts_detected == old(t).processed,
        old(t).conflicts_created <= old(t).conflicts_detected,
        old(t).writes <= old(t).processed,
    ensures
        *final(t) == step_tally(*old(t), d, dry_run, a),
{
    match d {
        MergeDecision::Skip => {
            t.skipped = t.skipped + 1;
        },
        MergeDecision::FastForward => {
            if dry_run {
                t.merged = t.merged + 1;
            } else if a.write_went_in {
                t.merged = t.merged + 1;
                t.writes = t.writes + 1;
            } else {
                t.skipped = t.skipped + 1;
            }
        },
        MergeDecision::Conflict => {
            if a.resolved_before {
                t.skipped = t.skipped + 1;
            } else if !dry_run && a.conflict_inserted {
                t.conflicts_detected = t.conflicts_detected + 1;
                t.conflicts_created = t.conflicts_created + 1;
                t.writes = t.writes + 1;
            } else {
                t.conflicts_detected = t.conflicts_detected + 1;
            }
        },
    }
    t.processed = t.processed + 1;
}

/// A merge page over its candidates' decisions and the store's answers: candidates are
/// counted until `limit` of them were (merged, skipped or found in conflict), so every
/// candidate counted is counted once, the page never exceeds its limit, and a dry run writes
/// nothing.
pub fn run_merge_page(ds: &[MergeDecision], ans: &[MergeAnswer], dry_run: bool, limit: usize) -> (r: MergeTally)
    requires
        ds@.len() == ans@.len(),
    ensures
        r == run_tally(ds@, ans@, dry_run, r.processed as nat),
        r.processed == if ds@.len() < limit {
            ds@.len()
        } else {
            limit as nat
        },
        r.merged + r.skipped + r.conflicts_detected == r.processed,
        r.conflicts_created <= r.conflicts_detected,
        dry_run ==> r.writes == 0 && r.conflicts_created == 0,
{
    let mut t = MergeTally { merged: 0, skipped: 0, conflicts_detected: 0, conflicts_created: 0, processed: 0, writes: 0 };
    let mut i: usize = 0;
    while i < ds.len() && t.merged + t.skipped + t.conflicts_detected < limit
        invariant
            ds@.len() == ans@.len(),
            i <= ds@.len(),
            i <= limit,
            t == run_tally(ds@, ans@, dry_run, i as nat),
            t.processed == i,
            t.merged + t.skipped + t.conflicts_detected == i,
            t.conflicts_created <= t.conflicts_detected,
            t.writes <= i,
            dry_run ==> t.writes == 0 && t.conflicts_created == 0,
        decreases ds@.len() - i,
    {
        merge_step(&mut t, ds[i], dry_run, ans[i]);
        i = i + 1;
        proof {
            lemma_run_tally_counts(ds@, ans@, dry_run, i as nat);
        }
    }
    t
}

} // verus!
