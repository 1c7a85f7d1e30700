use bm_storage::graph::GraphNode;
use bm_storage::graph_query::{
    cards_page, cards_since_limit, conflict_list_bounds, conflicts_page, edges_wanted,
    graph_query_bounds, live_cards, GraphConflictSummary, GraphQueryRequest,
};
use bm_storage::StoreError;

fn request(limit: usize, edges_limit: usize, cursor: Option<i64>) -> GraphQueryRequest {
    GraphQueryRequest {
        ids: None,
        types: None,
        status: None,
        tags_any: None,
        tags_all: None,
        text: None,
        cursor,
        limit,
        include_edges: true,
        edges_limit,
    }
}

fn card(id: &str, seq: i64, deleted: bool) -> GraphNode {
    GraphNode {
        id: id.to_string(),
        node_type: "card".to_string(),
        title: None,
        text: None,
        tags: vec![],
        status: None,
        meta_json: None,
        deleted,
        last_seq: seq,
        last_ts_ms: seq * 10,
    }
}

fn conflict(id: &str, created: i64) -> GraphConflictSummary {
    GraphConflictSummary {
        conflict_id: id.to_string(),
        kind: "node".to_string(),
        key: "CARD-1".to_string(),
        status: "open".to_string(),
        created_at_ms: created,
    }
}

fn refusal<T>(r: Result<T, StoreError>) -> &'static str {
    match r {
        Err(StoreError::InvalidInput(m)) => m,
        _ => panic!("expected an invalid-input error"),
    }
}

#[test]
fn query_bounds_clamp_limits_and_default_cursor() {
    let b = graph_query_bounds("main", "graph", &request(0, 5000, None)).unwrap();
    assert_eq!(b.before_seq, i64::MAX);
    assert_eq!(b.limit, 1);
    assert_eq!(b.edges_limit, 1000);
    let b = graph_query_bounds("main", "graph", &request(900, 7, Some(42))).unwrap();
    assert_eq!(b.before_seq, 42);
    assert_eq!(b.limit, 200);
    assert_eq!(b.edges_limit, 7);
}

#[test]
fn query_bounds_refuse_blank_names() {
    assert_eq!(
        refusal(graph_query_bounds("  ", "graph", &request(10, 10, None))),
        "branch must not be empty"
    );
    assert_eq!(
        refusal(graph_query_bounds("main", "", &request(10, 10, None))),
        "doc must not be empty"
    );
}

#[test]
fn cards_page_keeps_limit_and_points_at_last_kept() {
    let nodes = vec![card("CARD-3", 30, false), card("CARD-2", 20, false), card("CARD-1", 10, false)];
    let (page, next, more) = cards_page(nodes, 2);
    assert!(more);
    assert_eq!(next, Some(20));
    assert_eq!(page.iter().map(|n| n.id.as_str()).collect::<Vec<_>>(), vec!["CARD-3", "CARD-2"]);

    let nodes = vec![card("CARD-3", 30, false)];
    let (page, next, more) = cards_page(nodes, 2);
    assert!(!more);
    assert_eq!(next, None);
    assert_eq!(page.len(), 1);
}

#[test]
fn edges_are_read_only_when_asked_and_useful() {
    let r = request(10, 10, None);
    assert!(edges_wanted(&r, 3, 10));
    assert!(!edges_wanted(&r, 0, 10));
    assert!(!edges_wanted(&r, 3, 0));
    let mut r = r;
    r.include_edges = false;
    assert!(!edges_wanted(&r, 3, 10));
}

#[test]
fn conflict_listing_defaults_to_open_and_clamps() {
    let b = conflict_list_bounds("main", "graph", None, None, 0).unwrap();
    assert_eq!(b.status, "open");
    assert_eq!(b.before_created_at, i64::MAX);
    assert_eq!(b.limit, 1);
    let b = conflict_list_bounds("main", "graph", Some("resolved"), Some(99), 1000).unwrap();
    assert_eq!(b.status, "resolved");
    assert_eq!(b.before_created_at, 99);
    assert_eq!(b.limit, 200);
    assert_eq!(
        refusal(conflict_list_bounds(" ", "graph", None, None, 5)),
        "into_branch must not be empty"
    );
    assert_eq!(
        refusal(conflict_list_bounds("main", " ", None, None, 5)),
        "doc must not be empty"
    );
}

#[test]
fn conflicts_page_cuts_at_limit() {
    let rows = vec![conflict("C-3", 300), conflict("C-2", 200), conflict("C-1", 100)];
    let (page, next, more) = conflicts_page(rows, 1);
    assert!(more);
    assert_eq!(next, Some(300));
    assert_eq!(page.len(), 1);
    assert_eq!(page[0].conflict_id, "C-3");
    let rows = vec![conflict("C-2", 200), conflict("C-1", 100)];
    let (page, next, more) = conflicts_page(rows, 2);
    assert!(!more);
    assert_eq!(next, None);
    assert_eq!(page.len(), 2);
}

#[test]
fn cards_since_checks_inputs_and_clamps_limit() {
    assert_eq!(cards_since_limit("main", "graph", 0, 500).unwrap(), 200);
    assert_eq!(cards_since_limit("main", "graph", 5, 0).unwrap(), 0);
    assert_eq!(cards_since_limit("main", "graph", 5, 17).unwrap(), 17);
    assert_eq!(refusal(cards_since_limit("", "graph", 5, 17)), "branch must not be empty");
    assert_eq!(refusal(cards_since_limit("main", "", 5, 17)), "doc must not be empty");
    assert_eq!(refusal(cards_since_limit("main", "graph", -1, 17)), "since_seq must be >= 0");
}

#[test]
fn live_cards_drop_deleted_in_order() {
    let rows = vec![card("CARD-1", 1, false), card("CARD-2", 2, true), card("CARD-3", 3, false)];
    let live = live_cards(rows);
    assert_eq!(live.iter().map(|n| n.id.as_str()).collect::<Vec<_>>(), vec!["CARD-1", "CARD-3"]);
}
