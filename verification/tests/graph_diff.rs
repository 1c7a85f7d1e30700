use bm_storage::graph::{GraphEdge, GraphNode};
use bm_storage::graph_diff::{graph_diff_page, GraphDiffChange};
use bm_storage::sources::GraphDiffCandidate;

fn node(id: &str, title: &str, seq: i64) -> GraphNode {
    GraphNode {
        id: id.to_string(),
        node_type: "idea".to_string(),
        title: Some(title.to_string()),
        text: None,
        tags: vec![],
        status: None,
        meta_json: None,
        deleted: false,
        last_seq: seq,
        last_ts_ms: seq,
    }
}

fn edge(seq: i64) -> GraphEdge {
    GraphEdge {
        from: "a".to_string(),
        rel: "uses".to_string(),
        to: "b".to_string(),
        meta_json: None,
        deleted: false,
        last_seq: seq,
        last_ts_ms: seq,
    }
}

fn edge_candidate(seq: i64) -> GraphDiffCandidate {
    GraphDiffCandidate::Edge {
        from: "a".to_string(),
        rel: "uses".to_string(),
        target: "b".to_string(),
        to: edge(seq),
    }
}

#[test]
fn diff_keeps_what_differs_from_the_source() {
    let candidates = vec![
        GraphDiffCandidate::Node { to: node("a", "new title", 30) },
        edge_candidate(20),
        GraphDiffCandidate::Node { to: node("b", "b", 10) },
    ];
    let node_bases = vec![Some(node("a", "old title", 5)), None, Some(node("b", "b", 3))];
    let edge_bases = vec![None, Some(edge(4)), None];
    let page = graph_diff_page(candidates, &node_bases, &edge_bases, 10, 10);
    assert_eq!(page.changes.len(), 1);
    assert!(matches!(&page.changes[0], GraphDiffChange::Node { to } if to.id == "a"));
    assert!(!page.has_more);
    assert_eq!(page.next_cursor, None);
}

#[test]
fn diff_pages_stop_at_the_limit() {
    let candidates = vec![
        GraphDiffCandidate::Node { to: node("a", "x", 30) },
        GraphDiffCandidate::Node { to: node("b", "y", 20) },
        edge_candidate(10),
    ];
    let node_bases = vec![None, None, None];
    let edge_bases = vec![None, None, None];
    let page = graph_diff_page(candidates, &node_bases, &edge_bases, 10, 1);
    assert_eq!(page.changes.len(), 1);
    assert!(page.has_more);
    assert_eq!(page.next_cursor, Some(30));

    let scan_capped = graph_diff_page(
        vec![edge_candidate(9), edge_candidate(8)],
        &[None, None],
        &[Some(edge(9)), None],
        1,
        5,
    );
    assert!(scan_capped.changes.is_empty());
    assert!(scan_capped.has_more);
    assert_eq!(scan_capped.next_cursor, Some(9));
}
