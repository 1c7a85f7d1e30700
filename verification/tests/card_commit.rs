use bm_storage::graph::{GraphEdge, GraphNode};
use bm_storage::think::plan_card_commit;
use bm_storage::StoreError;

fn node(title: &str, seq: i64) -> GraphNode {
    GraphNode {
        id: "CARD-1".to_string(),
        node_type: "decision".to_string(),
        title: Some(title.to_string()),
        text: None,
        tags: vec!["k:x".to_string()],
        status: None,
        meta_json: None,
        deleted: false,
        last_seq: seq,
        last_ts_ms: seq,
    }
}

fn edge(rel: &str, to: &str, seq: i64) -> GraphEdge {
    GraphEdge {
        from: "CARD-1".to_string(),
        rel: rel.to_string(),
        to: to.to_string(),
        meta_json: None,
        deleted: false,
        last_seq: seq,
        last_ts_ms: seq,
    }
}

#[test]
fn first_commit_writes_everything_second_writes_nothing() {
    let edges = vec![edge("supports", "CARD-2", 0), edge("blocks", "CARD-3", 0)];
    let first = plan_card_commit(&None, "{\"a\":1}", None, &node("T", 0), &vec![None, None], &edges).unwrap();
    assert!(first.write_trace && first.write_node);
    assert_eq!(first.write_edges, vec![true, true]);

    // What the store holds afterwards: the payload, and versions with their own sequence numbers.
    let stored_node = node("T", 7);
    let stored_edges = vec![Some(edge("supports", "CARD-2", 8)), Some(edge("blocks", "CARD-3", 9))];
    let second = plan_card_commit(
        &Some(Some("{\"a\":1}".to_string())),
        "{\"a\":1}",
        Some(&stored_node),
        &node("T", 0),
        &stored_edges,
        &edges,
    )
    .unwrap();
    assert!(!second.write_trace && !second.write_node);
    assert_eq!(second.write_edges, vec![false, false]);
}

#[test]
fn changed_card_writes_its_node_only() {
    let edges = vec![edge("supports", "CARD-2", 0)];
    let stored_node = node("T", 7);
    let p = plan_card_commit(
        &Some(Some("p".to_string())),
        "p",
        Some(&stored_node),
        &node("New title", 0),
        &vec![Some(edge("supports", "CARD-2", 8))],
        &edges,
    )
    .unwrap();
    assert!(!p.write_trace && p.write_node);
    assert_eq!(p.write_edges, vec![false]);
}

#[test]
fn commit_with_other_payload_is_refused() {
    match plan_card_commit(&Some(Some("p".to_string())), "q", None, &node("T", 0), &vec![], &vec![]) {
        Err(StoreError::InvalidInput(m)) => assert_eq!(m, "card_id already exists with a different payload"),
        _ => panic!("expected a refusal"),
    }
}
