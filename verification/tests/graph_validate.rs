use bm_storage::graph::{GraphEdge, GraphNode};
use bm_storage::graph_validate::validate_graph;

fn node(id: &str, deleted: bool) -> GraphNode {
    GraphNode {
        id: id.to_string(),
        node_type: "idea".to_string(),
        title: None,
        text: None,
        tags: vec![],
        status: None,
        meta_json: None,
        deleted,
        last_seq: 1,
        last_ts_ms: 1,
    }
}

fn edge(from: &str, rel: &str, to: &str, deleted: bool) -> GraphEdge {
    GraphEdge {
        from: from.to_string(),
        rel: rel.to_string(),
        to: to.to_string(),
        meta_json: None,
        deleted,
        last_seq: 1,
        last_ts_ms: 1,
    }
}

#[test]
fn dangling_edges_are_reported_in_order() {
    let nodes = vec![node("a", false), node("b", false), node("c", true)];
    let edges = vec![
        edge("a", "uses", "b", false),
        edge("a", "uses", "c", false),
        edge("x", "needs", "a", false),
        edge("a", "old", "zzz", true),
    ];
    let r = validate_graph(&nodes, &edges, 10);
    assert!(!r.ok);
    assert_eq!(r.nodes, 2);
    assert_eq!(r.edges, 3);
    let keys: Vec<&str> = r.errors.iter().map(|e| e.key.as_str()).collect();
    assert_eq!(keys, vec!["a|uses|c", "x|needs|a"]);
    assert_eq!(r.errors[0].code, "EDGE_ENDPOINT_MISSING");
    assert_eq!(r.errors[0].kind, "edge");
    assert_eq!(r.errors[0].message, "edge endpoint is missing or deleted");

    let capped = validate_graph(&nodes, &edges, 0);
    assert_eq!(capped.errors.len(), 1);
    assert!(!capped.ok);
}

#[test]
fn a_sound_graph_is_ok() {
    let nodes = vec![node("a", false), node("b", false)];
    let edges = vec![edge("a", "uses", "b", false), edge("b", "uses", "gone", true)];
    let r = validate_graph(&nodes, &edges, 5);
    assert!(r.ok);
    assert!(r.errors.is_empty());
    assert_eq!((r.nodes, r.edges), (2, 1));
}
