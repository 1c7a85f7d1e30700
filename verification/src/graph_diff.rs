//! The diff between two branches' views of a graph document: which of the target's recent
//! versions differ from what the source holds, one page at a time.

use vstd::prelude::*;

use crate::graph::{
    edge_semantic_eq_spec, graph_edge_semantic_eq, graph_node_semantic_eq, node_semantic_eq_spec,
    GraphEdge, GraphNode,
};
use crate::sources::GraphDiffCandidate;

verus! {

/// A node or edge that differs between the two branches, as the target has it.
#[derive(Debug)]
pub enum GraphDiffChange {
    Node { to: GraphNode },
    Edge { to: GraphEdge },
}

/// One page of a graph diff.
#[derive(Debug)]
pub struct GraphDiffSlice {
    pub changes: Vec<GraphDiffChange>,
    pub next_cursor: Option<i64>,
    pub has_more: bool,
}

/// The version on the target differs from the source's (`node_base` or `edge_base`, by the
/// candidate's kind; `None` when the source has none).
pub open spec fn candidate_changed(
    c: GraphDiffCandidate,
    node_base: Option<GraphNode>,
    edge_base: Option<GraphEdge>,
) -> bool {
    match c {
        GraphDiffCandidate::Node { to } => !node_semantic_eq_spec(node_base, Some(to)),
        GraphDiffCandidate::Edge { to, .. } => !edge_semantic_eq_spec(edge_base, Some(to)),
    }
}

pub open spec fn change_of(c: GraphDiffCandidate) -> GraphDiffChange {
    match c {
        GraphDiffCandidate::Node { to } => GraphDiffChange::Node { to },
        GraphDiffCandidate::Edge { to, .. } => GraphDiffChange::Edge { to },
    }
}

/// The changes among the first `k` candidates, in order.
pub open spec fn diff_changes(
    cands: Seq<GraphDiffCandidate>,
    node_bases: Seq<Option<GraphNode>>,
    edge_bases: Seq<Option<GraphEdge>>,
    k: nat,
) -> Seq<GraphDiffChange>
    decreases k,
{
    if k == 0 {
        Seq::empty()
    } else {
        let prev = diff_changes(cands, node_bases, edge_bases, (k - 1) as nat);
        let i = k - 1;
        if candidate_changed(cands[i], node_bases[i], edge_bases[i]) {
            prev.push(change_of(cands[i]))
        } else {
            prev
        }
    }
}

/// How many candidates a page looks at, counting from `k`: it stops after `n` of them, or as
/// soon as `limit` changes are found.
pub open spec fn scan_count(
    cands: Seq<GraphDiffCandidate>,
    node_bases: Seq<Option<GraphNode>>,
    edge_bases: Seq<Option<GraphEdge>>,
    limit: nat,
    n: nat,
    k: nat,
) -> nat
    decreases n - k,
{
    if k >= n || diff_changes(cands, node_bases, edge_bases, k).len() >= limit {
        k
    } else {
        scan_count(cands, node_bases, edge_bases, limit, n, k + 1)
    }
}

pub open spec fn cand_seq(c: GraphDiffCandidate) -> i64 {
    match c {
        GraphDiffCandidate::Node { to } => to.last_seq,
        GraphDiffCandidate::Edge { to, .. } => to.last_seq,
    }
}

proof fn lemma_changes_len(
    cands: Seq<GraphDiffCandidate>,
    node_bases: Seq<Option<GraphNode>>,
    edge_bases: Seq<Option<GraphEdge>>,
    k: nat,
)
    ensures
        diff_changes(cands, node_bases, edge_bases, k).len() <= k,
    decreases k,
{
    if k > 0 {
        lemma_changes_len(cands, node_bases, edge_bases, (k - 1) as nat);
    }
}

/// A page of a graph diff. `candidates` are the target's versions newest first (up to
/// `scan_limit + 1` of them), with the source's version of each in `node_bases` or
/// `edge_bases`. The page looks at the candidates in order, at most `scan_limit` of them,
/// and stops once it holds `limit` changes; it keeps those that differ from the source. When
/// candidates are left, the next page continues from the last one looked at.
pub fn graph_diff_page(
    candidates: Vec<GraphDiffCandidate>,
    node_bases: &[Option<GraphNode>],
    edge_bases: &[Option<GraphEdge>],
    scan_limit: usize,
    limit: usize,
) -> (r: GraphDiffSlice)
    requires
        node_bases@.len() == candidates@.len(),
        edge_bases@.len() == candidates@.len(),
    ensures
        ({
            let n = if scan_limit < candidates@.len() {
                scan_limit as nat
            } else {
                candidates@.len()
            };
            let scanned = scan_count(candidates@, node_bases@, edge_bases@, limit as nat, n, 0);
            &&& r.changes@ == diff_changes(candidates@, node_bases@, edge_bases@, scanned)
            &&& r.has_more == (candidates@.len() > scanned)
            &&& r.next_cursor == if r.has_more {
                Some(
                    cand_seq(
                        candidates@[if scanned == 0 {
                            0
                        } else {
                            scanned - 1
                        }],
                    ),
                )
            } else {
                None::<i64>
            }
        }),
{
    let ghost orig = candidates@;
    let total = candidates.len();
    let n: usize = if scan_limit < total {
        scan_limit
    } else {
        total
    };
    let mut seqs: Vec<i64> = Vec::new();
    let mut j: usize = 0;
    while j < total
        invariant
            j <= total,
            total == orig.len(),
            candidates@ == orig,
            seqs@.len() == j,
            forall|k: int| 0 <= k < j ==> seqs@[k] == cand_seq(#[trigger] orig[k]),
        decreases total - j,
    {
        seqs.push(candidates[j].last_seq());
        j = j + 1;
    }
    let mut src = candidates;
    let mut stack: Vec<GraphDiffCandidate> = Vec::new();
    assert(orig.subrange(0, orig.len() as int) =~= orig);
    assert(orig.subrange(orig.len() as int, orig.len() as int).reverse() =~= Seq::<
        GraphDiffCandidate,
    >::empty());
    while src.len() > 0
        invariant
            src@.len() <= orig.len(),
            src@ == orig.subrange(0, src@.len() as int),
            stack@ == orig.subrange(src@.len() as int, orig.len() as int).reverse(),
        decreases src@.len(),
    {
        let ghost m = src@.len() - 1;
        let c = src.pop().unwrap();
        proof {
            assert(orig.subrange(m, orig.len() as int).reverse() =~= orig.subrange(
                m + 1,
                orig.len() as int,
            ).reverse().push(orig[m]));
            assert(src@ =~= orig.subrange(0, m));
        }
        stack.push(c);
    }
    assert(stack@ =~= orig.subrange(0, orig.len() as int).reverse());
    let mut changes: Vec<GraphDiffChange> = Vec::new();
    let mut i: usize = 0;
    while i < n
        invariant
            i <= n <= total,
            total == orig.len(),
            node_bases@.len() == total,
            edge_bases@.len() == total,
            stack@ == orig.subrange(i as int, orig.len() as int).reverse(),
            changes@ == diff_changes(orig, node_bases@, edge_bases@, i as nat),
            scan_count(orig, node_bases@, edge_bases@, limit as nat, n as nat, 0) == scan_count(
                orig,
                node_bases@,
                edge_bases@,
                limit as nat,
                n as nat,
                i as nat,
            ),
        ensures
            scan_count(orig, node_bases@, edge_bases@, limit as nat, n as nat, 0) == i,
            changes@ == diff_changes(orig, node_bases@, edge_bases@, i as nat),
        decreases n - i,
    {
        if changes.len() >= limit {
            break;
        }
        proof {
            assert(orig.subrange(i as int, orig.len() as int).reverse() =~= orig.subrange(
                i + 1,
                orig.len() as int,
            ).reverse().push(orig[i as int]));
        }
        let c = stack.pop().unwrap();
        assert(c == orig[i as int]);
        proof {
            assert(stack@ =~= orig.subrange(i + 1, orig.len() as int).reverse());
        }
        match c {
            GraphDiffCandidate::Node { to } => {
                if !graph_node_semantic_eq(node_bases[i].as_ref(), Some(&to)) {
                    changes.push(GraphDiffChange::Node { to });
                }
            },
            GraphDiffCandidate::Edge { from, rel, target, to } => {
                if !graph_edge_semantic_eq(edge_bases[i].as_ref(), Some(&to)) {
                    changes.push(GraphDiffChange::Edge { to });
                }
            },
        }
        i = i + 1;
    }
    let scanned = i;
    let has_more = total > scanned;
    let next_cursor = if has_more {
        let at = if scanned == 0 {
            0
        } else {
            scanned - 1
        };
        Some(seqs[at])
    } else {
        None
    };
    GraphDiffSlice { changes, next_cursor, has_more }
}

} // verus!
