//! Checking a graph document: every live edge must join two live nodes.

use vstd::prelude::*;

use crate::graph::{GraphEdge, GraphNode};
use crate::graph_merge::{edge_key_spec, edge_key_string};
use crate::text::{chars_eq, chars_of, string_of};

verus! {

broadcast use vstd::string::group_string_axioms;

/// The most problems one check reports.
pub const MAX_VALIDATE_ERRORS: usize = 500;

/// A problem found in a graph.
#[derive(Clone, Debug)]
pub struct GraphValidateError {
    pub code: &'static str,
    pub message: String,
    pub kind: &'static str,
    pub key: String,
}

/// What a check of a graph found.
#[derive(Clone, Debug)]
pub struct GraphValidateResult {
    pub ok: bool,
    pub nodes: usize,
    pub edges: usize,
    pub errors: Vec<GraphValidateError>,
}

/// A node with this id is in the graph and not deleted.
pub open spec fn live_node(nodes: Seq<GraphNode>, id: Seq<char>) -> bool {
    exists|i: int| 0 <= i < nodes.len() && !nodes[i].deleted && #[trigger] nodes[i].id@ == id
}

/// A live edge with an endpoint that is not a live node.
pub open spec fn dangling(nodes: Seq<GraphNode>, e: GraphEdge) -> bool {
    !e.deleted && (!live_node(nodes, e.from@) || !live_node(nodes, e.to@))
}

/// The keys of the dangling edges, in the order of the edges.
pub open spec fn dangling_keys(nodes: Seq<GraphNode>, edges: Seq<GraphEdge>) -> Seq<Seq<char>>
    decreases edges.len(),
{
    if edges.len() == 0 {
        Seq::empty()
    } else {
        let rest = dangling_keys(nodes, edges.drop_last());
        let e = edges.last();
        if dangling(nodes, e) {
            rest.push(edge_key_spec(e.from@, e.rel@, e.to@))
        } else {
            rest
        }
    }
}

/// How many nodes are not deleted.
pub open spec fn live_node_count(nodes: Seq<GraphNode>) -> nat
    decreases nodes.len(),
{
    if nodes.len() == 0 {
        0
    } else {
        live_node_count(nodes.drop_last()) + if nodes.last().deleted {
            0nat
        } else {
            1nat
        }
    }
}

/// How many edges are not deleted.
pub open spec fn live_edge_count(edges: Seq<GraphEdge>) -> nat
    decreases edges.len(),
{
    if edges.len() == 0 {
        0
    } else {
        live_edge_count(edges.drop_last()) + if edges.last().deleted {
            0nat
        } else {
            1nat
        }
    }
}

pub open spec fn error_keys(errors: Seq<GraphValidateError>) -> Seq<Seq<char>> {
    errors.map_values(|e: GraphValidateError| e.key@)
}

/// The number of problems reported at most: what was asked, between 1 and 500.
pub open spec fn validate_cap(max_errors: usize) -> usize {
    if max_errors < 1 {
        1
    } else if max_errors > MAX_VALIDATE_ERRORS {
        MAX_VALIDATE_ERRORS
    } else {
        max_errors
    }
}

fn is_live_node(nodes: &[GraphNode], id: &[char]) -> (r: bool)
    ensures
        r == live_node(nodes@, id@),
{
    let mut i: usize = 0;
    while i < nodes.len()
        invariant
            i <= nodes@.len(),
            forall|k: int| 0 <= k < i ==> !(!nodes@[k].deleted && #[trigger] nodes@[k].id@ == id@),
        decreases nodes@.len() - i,
    {
        if !nodes[i].deleted {
            let nid = chars_of(nodes[i].id.as_str());
            if chars_eq(nid.as_slice(), id) {
                return true;
            }
        }
        i = i + 1;
    }
    false
}

proof fn lemma_counts_bounded(nodes: Seq<GraphNode>, edges: Seq<GraphEdge>)
    ensures
        live_node_count(nodes) <= nodes.len(),
        live_edge_count(edges) <= edges.len(),
        dangling_keys(nodes, edges).len() <= edges.len(),
    decreases nodes.len() + edges.len(),
{
    if nodes.len() > 0 {
        lemma_counts_bounded(nodes.drop_last(), edges);
    }
    if edges.len() > 0 {
        lemma_counts_bounded(nodes, edges.drop_last());
    }
}

/// Checks a graph: reports the live edges whose endpoints are missing or deleted, in edge
/// order and at most `max_errors` of them (held between 1 and 500), with the numbers of live
/// nodes and edges; the graph is fine when nothing is reported.
pub fn validate_graph(nodes: &[GraphNode], edges: &[GraphEdge], max_errors: usize) -> (r: GraphValidateResult)
    ensures
        ({
            let all = dangling_keys(nodes@, edges@);
            let cap = validate_cap(max_errors);
            &&& error_keys(r.errors@) == if all.len() > cap {
                all.take(cap as int)
            } else {
                all
            }
            &&& r.ok == (all.len() == 0)
            &&& r.nodes == live_node_count(nodes@)
            &&& r.edges == live_edge_count(edges@)
            &&& forall|i: int|
                0 <= i < r.errors@.len() ==> (#[trigger] r.errors@[i]).code@ == "EDGE_ENDPOINT_MISSING"@
                    && r.errors@[i].kind@ == "edge"@ && r.errors@[i].message@
                    == "edge endpoint is missing or deleted"@
        }),
{
    let cap: usize = if max_errors < 1 {
        1
    } else if max_errors > MAX_VALIDATE_ERRORS {
        MAX_VALIDATE_ERRORS
    } else {
        max_errors
    };
    let mut live_nodes: usize = 0;
    let mut n: usize = 0;
    while n < nodes.len()
        invariant
            n <= nodes@.len(),
            live_nodes == live_node_count(nodes@.take(n as int)),
            live_nodes <= n,
        decreases nodes@.len() - n,
    {
        proof {
            assert(nodes@.take(n + 1).drop_last() =~= nodes@.take(n as int));
            lemma_counts_bounded(nodes@.take(n as int), Seq::empty());
        }
        if !nodes[n].deleted {
            live_nodes = live_nodes + 1;
        }
        n = n + 1;
    }
    proof {
        assert(nodes@.take(nodes@.len() as int) =~= nodes@);
    }
    let mut live_edges: usize = 0;
    let mut errors: Vec<GraphValidateError> = Vec::new();
    let mut found: usize = 0;
    let mut i: usize = 0;
    while i < edges.len()
        invariant
            i <= edges@.len(),
            live_edges == live_edge_count(edges@.take(i as int)),
            live_edges <= i,
            found == dangling_keys(nodes@, edges@.take(i as int)).len(),
            found <= i,
            error_keys(errors@) == if found > cap {
                dangling_keys(nodes@, edges@.take(i as int)).take(cap as int)
            } else {
                dangling_keys(nodes@, edges@.take(i as int))
            },
            errors@.len() <= cap,
            1 <= cap <= MAX_VALIDATE_ERRORS,
            forall|k: int|
                0 <= k < errors@.len() ==> (#[trigger] errors@[k]).code@ == "EDGE_ENDPOINT_MISSING"@
                    && errors@[k].kind@ == "edge"@ && errors@[k].message@
                    == "edge endpoint is missing or deleted"@,
        decreases edges@.len() - i,
    {
        proof {
            assert(edges@.take(i + 1).drop_last() =~= edges@.take(i as int));
            assert(edges@.take(i + 1).last() == edges@[i as int]);
            lemma_counts_bounded(Seq::empty(), edges@.take(i as int));
            lemma_counts_bounded(nodes@, edges@.take(i as int));
        }
        let e = &edges[i];
        if !e.deleted {
            live_edges = live_edges + 1;
            let from = chars_of(e.from.as_str());
            let to = chars_of(e.to.as_str());
            if !is_live_node(nodes, from.as_slice()) || !is_live_node(nodes, to.as_slice()) {
                let ghost before = error_keys(errors@);
                let ghost prev = dangling_keys(nodes@, edges@.take(i as int));
                assert(error_keys(errors@).len() == errors@.len());
                assert(prev.len() == found);
                if errors.len() < cap {
                    assert(found < cap);
                    errors.push(
                        GraphValidateError {
                            code: "EDGE_ENDPOINT_MISSING",
                            message: string_of(chars_of("edge endpoint is missing or deleted").as_slice()),
                            kind: "edge",
                            key: edge_key_string(e.from.as_str(), e.rel.as_str(), e.to.as_str()),
                        },
                    );
                    proof {
                        assert(error_keys(errors@) =~= before.push(
                            edge_key_spec(e.from@, e.rel@, e.to@),
                        ));
                    }
                } else {
                    proof {
                        assert(prev.push(edge_key_spec(e.from@, e.rel@, e.to@)).take(cap as int)
                            =~= prev.take(cap as int));
                        if found == cap {
                            assert(prev.take(cap as int) =~= prev);
                        }
                    }
                }
                found = found + 1;
            }
        }
        i = i + 1;
    }
    proof {
        assert(edges@.take(edges@.len() as int) =~= edges@);
    }
    GraphValidateResult { ok: found == 0, nodes: live_nodes, edges: live_edges, errors }
}

/// A graph is fine exactly when every live edge joins two live nodes.
pub proof fn lemma_valid_iff_no_dangling_edge(nodes: Seq<GraphNode>, edges: Seq<GraphEdge>)
    ensures
        dangling_keys(nodes, edges).len() == 0 <==> forall|i: int|
            0 <= i < edges.len() ==> !dangling(nodes, #[trigger] edges[i]),
    decreases edges.len(),
{
    if edges.len() > 0 {
        lemma_valid_iff_no_dangling_edge(nodes, edges.drop_last());
        let d = edges.drop_last();
        if dangling_keys(nodes, edges).len() == 0 {
            assert forall|i: int| 0 <= i < edges.len() implies !dangling(nodes, #[trigger] edges[i]) by {
                if i < edges.len() - 1 {
                    assert(edges[i] == d[i]);
                }
            }
        } else {
            if !dangling(nodes, edges.last()) {
                let j = choose|j: int| 0 <= j < d.len() && dangling(nodes, #[trigger] d[j]);
                assert(edges[j] == d[j]);
            }
        }
        if forall|i: int| 0 <= i < edges.len() ==> !dangling(nodes, #[trigger] edges[i]) {
            assert forall|i: int| 0 <= i < d.len() implies !dangling(nodes, #[trigger] d[i]) by {
                assert(edges[i] == d[i]);
            }
            assert(!dangling(nodes, edges[edges.len() - 1]));
        }
    }
}

} // verus!
