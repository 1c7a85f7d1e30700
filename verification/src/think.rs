//! Committing a think card: the checks on its inputs, the idempotence of its trace entry,
//! and the keys that make its graph writes happen once.

use vstd::prelude::*;

use crate::error::StoreError;
use crate::graph::{
    edge_semantic_eq_spec, graph_edge_semantic_eq, graph_node_semantic_eq, node_semantic_eq_spec,
    opt_view, GraphEdge, GraphNode,
};
use crate::model::ThinkCardInput;
use crate::text::{append_str, chars_eq, chars_of, string_of, trim_seq, trim_str};

verus! {

broadcast use vstd::string::group_string_axioms;

pub open spec fn blank(s: Seq<char>) -> bool {
    trim_seq(s).len() == 0
}

pub open spec fn has_text(o: Option<String>) -> bool {
    match o {
        Some(s) => !blank(s@),
        None => false,
    }
}

/// The first of the card's plain checks that fails, if any: the branch, both documents, the
/// card's id and type must not be blank, and it needs a title or a text.
pub open spec fn think_card_check_spec(
    branch: Seq<char>,
    trace_doc: Seq<char>,
    graph_doc: Seq<char>,
    card: ThinkCardInput,
) -> Option<Seq<char>> {
    if blank(branch) {
        Some("branch must not be empty"@)
    } else if blank(trace_doc) {
        Some("trace_doc must not be empty"@)
    } else if blank(graph_doc) {
        Some("graph_doc must not be empty"@)
    } else if blank(card.card_id@) {
        Some("card.id must not be empty"@)
    } else if blank(card.card_type@) {
        Some("card.type must not be empty"@)
    } else if !has_text(card.title) && !has_text(card.text) {
        Some("card must have at least one of title or text"@)
    } else {
        None
    }
}

fn text_present(o: &Option<String>) -> (r: bool)
    ensures
        r == has_text(*o),
{
    match o {
        Some(s) => trim_str(s.as_str()).len() > 0,
        None => false,
    }
}

/// Checks a card's inputs (the checks of the card's id, type and tags against the graph's
/// naming rules are made by the caller).
pub fn check_think_card(branch: &str, trace_doc: &str, graph_doc: &str, card: &ThinkCardInput) -> (r: Result<
    (),
    StoreError,
>)
    ensures
        match think_card_check_spec(branch@, trace_doc@, graph_doc@, *card) {
            Some(m) => r matches Err(StoreError::InvalidInput(e)) && e@ == m,
            None => r is Ok,
        },
{
    if trim_str(branch).len() == 0 {
        return Err(StoreError::InvalidInput("branch must not be empty"));
    }
    if trim_str(trace_doc).len() == 0 {
        return Err(StoreError::InvalidInput("trace_doc must not be empty"));
    }
    if trim_str(graph_doc).len() == 0 {
        return Err(StoreError::InvalidInput("graph_doc must not be empty"));
    }
    if trim_str(card.card_id.as_str()).len() == 0 {
        return Err(StoreError::InvalidInput("card.id must not be empty"));
    }
    if trim_str(card.card_type.as_str()).len() == 0 {
        return Err(StoreError::InvalidInput("card.type must not be empty"));
    }
    if !text_present(&card.title) && !text_present(&card.text) {
        return Err(StoreError::InvalidInput("card must have at least one of title or text"));
    }
    Ok(())
}

/// Whether a card's trace entry is still to be written, given the payload stored under its
/// key (if any) and the payload it brings; or the refusal.
pub open spec fn trace_entry_spec(existing: Option<Option<Seq<char>>>, payload: Seq<char>) -> Result<bool, Seq<char>> {
    match existing {
        None => Ok(true),
        Some(None) => Err("card_id already exists but stored payload is missing"@),
        Some(Some(p)) => if p == payload {
            Ok(false)
        } else {
            Err("card_id already exists with a different payload"@)
        },
    }
}

/// Whether the card's trace entry still has to be written, given the payload stored under
/// its key, if any: a card is recorded once, and committing it again must bring the same
/// payload.
pub fn trace_entry_needed(existing: &Option<Option<String>>, payload_json: &str) -> (r: Result<bool, StoreError>)
    ensures
        existing is None ==> r == Ok::<bool, StoreError>(true),
        existing matches Some(None) ==> (r matches Err(StoreError::InvalidInput(m)) && m@
            == "card_id already exists but stored payload is missing"@),
        existing matches Some(Some(p)) && p@ == payload_json@ ==> r == Ok::<bool, StoreError>(false),
        existing matches Some(Some(p)) && p@ != payload_json@ ==> (r matches Err(StoreError::InvalidInput(m))
            && m@ == "card_id already exists with a different payload"@),
        match (r, trace_entry_spec(
            match existing {
                None => None,
                Some(o) => Some(opt_view(*o)),
            },
            payload_json@,
        )) {
            (Ok(b), Ok(c)) => b == c,
            (Err(StoreError::InvalidInput(m)), Err(w)) => m@ == w,
            _ => false,
        },
{
    match existing {
        None => Ok(true),
        Some(None) => Err(StoreError::InvalidInput("card_id already exists but stored payload is missing")),
        Some(Some(p)) => {
            let pv = chars_of(p.as_str());
            let qv = chars_of(payload_json);
            if chars_eq(pv.as_slice(), qv.as_slice()) {
                Ok(false)
            } else {
                Err(StoreError::InvalidInput("card_id already exists with a different payload"))
            }
        },
    }
}

/// `think_card:<card_id>`: the key of the card's trace entry.
pub fn think_card_source_event_id(card_id: &str) -> (r: String)
    ensures
        r@ == "think_card:"@ + card_id@,
{
    let mut out: Vec<char> = Vec::new();
    append_str(&mut out, "think_card:");
    append_str(&mut out, card_id);
    string_of(out.as_slice())
}

/// `think_card:<card_id>:node`: the key of the card's node write.
pub fn think_card_node_key(card_id: &str) -> (r: String)
    ensures
        r@ == "think_card:"@ + card_id@ + ":node"@,
{
    let mut out: Vec<char> = Vec::new();
    append_str(&mut out, "think_card:");
    append_str(&mut out, card_id);
    append_str(&mut out, ":node");
    string_of(out.as_slice())
}

/// `think_card:<card_id>:edge:<rel>:<to_id>`: the key of one of the card's edge writes.
pub fn think_card_edge_key(card_id: &str, rel: &str, to_id: &str) -> (r: String)
    ensures
        r@ == "think_card:"@ + card_id@ + ":edge:"@ + rel@ + ":"@ + to_id@,
{
    let mut out: Vec<char> = Vec::new();
    append_str(&mut out, "think_card:");
    append_str(&mut out, card_id);
    append_str(&mut out, ":edge:");
    append_str(&mut out, rel);
    append_str(&mut out, ":");
    append_str(&mut out, to_id);
    string_of(out.as_slice())
}

/// The writes one card commit makes: its trace entry, a new version of its node, and a new
/// version of each of its edges (in the order the edges are given).
#[derive(Debug)]
pub struct CardCommitPlan {
    pub write_trace: bool,
    pub write_node: bool,
    pub write_edges: Vec<bool>,
}

/// What a commit writes, given what the store holds: the stored trace payload (if any), the
/// stored node and, for each edge, the stored edge under its key; refused when the stored
/// trace payload is missing or differs.
pub open spec fn card_commit_spec(
    stored_payload: Option<Option<Seq<char>>>,
    payload: Seq<char>,
    stored_node: Option<GraphNode>,
    node: GraphNode,
    stored_edges: Seq<Option<GraphEdge>>,
    edges: Seq<GraphEdge>,
) -> Result<(bool, bool, Seq<bool>), Seq<char>> {
    match trace_entry_spec(stored_payload, payload) {
        Err(m) => Err(m),
        Ok(t) => Ok(
            (
                t,
                !node_semantic_eq_spec(stored_node, Some(node)),
                Seq::new(edges.len(), |i: int| !edge_semantic_eq_spec(stored_edges[i], Some(edges[i]))),
            ),
        ),
    }
}

/// Decides the writes of a card commit from what the store holds.
pub fn plan_card_commit(
    stored_payload: &Option<Option<String>>,
    payload_json: &str,
    stored_node: Option<&GraphNode>,
    node: &GraphNode,
    stored_edges: &Vec<Option<GraphEdge>>,
    edges: &Vec<GraphEdge>,
) -> (r: Result<CardCommitPlan, StoreError>)
    requires
        stored_edges@.len() == edges@.len(),
    ensures
        match (r, card_commit_spec(
            match stored_payload {
                None => None,
                Some(o) => Some(opt_view(*o)),
            },
            payload_json@,
            match stored_node {
                None => None,
                Some(n) => Some(*n),
            },
            *node,
            stored_edges@,
            edges@,
        )) {
            (Ok(p), Ok((t, n, es))) => p.write_trace == t && p.write_node == n && p.write_edges@ == es,
            (Err(StoreError::InvalidInput(m)), Err(w)) => m@ == w,
            _ => false,
        },
{
    let write_trace = trace_entry_needed(stored_payload, payload_json)?;
    let write_node = !graph_node_semantic_eq(stored_node, Some(node));
    let mut write_edges: Vec<bool> = Vec::new();
    let mut i: usize = 0;
    while i < edges.len()
        invariant
            stored_edges@.len() == edges@.len(),
            i <= edges@.len(),
            write_edges@ == Seq::new(i as nat, |k: int| !edge_semantic_eq_spec(stored_edges@[k], Some(edges@[k]))),
        decreases edges@.len() - i,
    {
        let w = !graph_edge_semantic_eq(stored_edges[i].as_ref(), Some(&edges[i]));
        write_edges.push(w);
        i = i + 1;
        assert(write_edges@ =~= Seq::new(i as nat, |k: int| !edge_semantic_eq_spec(stored_edges@[k], Some(edges@[k]))));
    }
    Ok(CardCommitPlan { write_trace, write_node, write_edges })
}

/// The store holds what a commit left: its trace payload once written (or already there),
/// a node semantically the card's where the node was written (else the node it held), and
/// likewise for each edge.
pub open spec fn commit_left(
    plan: (bool, bool, Seq<bool>),
    stored_payload: Option<Option<Seq<char>>>,
    payload: Seq<char>,
    stored_node: Option<GraphNode>,
    node: GraphNode,
    stored_edges: Seq<Option<GraphEdge>>,
    edges: Seq<GraphEdge>,
    payload_after: Option<Option<Seq<char>>>,
    node_after: Option<GraphNode>,
    edges_after: Seq<Option<GraphEdge>>,
) -> bool {
    &&& payload_after == (if plan.0 {
        Some(Some(payload))
    } else {
        stored_payload
    })
    &&& (if plan.1 {
        node_semantic_eq_spec(node_after, Some(node))
    } else {
        node_after == stored_node
    })
    &&& edges_after.len() == edges.len()
    &&& forall|i: int|
        0 <= i < edges.len() ==> (if plan.2[i] {
            edge_semantic_eq_spec(#[trigger] edges_after[i], Some(edges[i]))
        } else {
            edges_after[i] == stored_edges[i]
        })
}

/// Committing the same card again writes nothing: once a commit went through and the store
/// holds what it left, the identical commit is accepted and writes no trace entry, no node
/// version and no edge version.
pub proof fn lemma_repeat_card_commit_writes_nothing(
    stored_payload: Option<Option<Seq<char>>>,
    payload: Seq<char>,
    stored_node: Option<GraphNode>,
    node: GraphNode,
    stored_edges: Seq<Option<GraphEdge>>,
    edges: Seq<GraphEdge>,
    payload_after: Option<Option<Seq<char>>>,
    node_after: Option<GraphNode>,
    edges_after: Seq<Option<GraphEdge>>,
)
    requires
        stored_edges.len() == edges.len(),
        card_commit_spec(stored_payload, payload, stored_node, node, stored_edges, edges) is Ok,
        commit_left(
            card_commit_spec(stored_payload, payload, stored_node, node, stored_edges, edges)->Ok_0,
            stored_payload,
            payload,
            stored_node,
            node,
            stored_edges,
            edges,
            payload_after,
            node_after,
            edges_after,
        ),
    ensures
        card_commit_spec(payload_after, payload, node_after, node, edges_after, edges) == Ok::<
            (bool, bool, Seq<bool>),
            Seq<char>,
        >((false, false, Seq::new(edges.len(), |i: int| false))),
{
    let second = card_commit_spec(payload_after, payload, node_after, node, edges_after, edges)->Ok_0;
    assert(second.2 =~= Seq::new(edges.len(), |i: int| false));
}

} // verus!
