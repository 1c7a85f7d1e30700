use bm_storage::graph::graph_conflict_id;
use bm_storage::store::anchors::{encode_json_string_list, normalize_anchor_id};
use bm_storage::store::job_bus::normalize_thread_id;

#[test]
fn thread_ids_are_fixed_points() {
    for raw in [" task\\\\7/ ./ notes ", "DM/zed/amy", "a//b/./c", "dm/ x /y"] {
        let t = normalize_thread_id(raw).unwrap();
        assert_eq!(normalize_thread_id(&t).unwrap(), t);
        assert!(!t.contains('\\'));
        assert!(!t.starts_with('/') && !t.ends_with('/'));
        for seg in t.split('/') {
            assert!(!seg.is_empty() && seg != "." && seg != ".." && seg.trim() == seg);
        }
    }
    assert_eq!(normalize_thread_id(" task\\\\7/ ./ notes ").unwrap(), "task/7/notes");
}

#[test]
fn dm_threads_ignore_agent_order() {
    assert_eq!(normalize_thread_id("dm/zed/amy").unwrap(), normalize_thread_id("dm/amy/zed").unwrap());
    assert_eq!(normalize_thread_id("dm/amy/zed").unwrap(), "dm/amy/zed");
}

#[test]
fn conflict_ids_have_their_shape() {
    let id = graph_conflict_id("ws", "feature", "main", "graph", "node", "CARD-1", 3, 9, 12);
    assert_eq!(id.len(), 41);
    assert!(id.starts_with("CONFLICT-"));
    assert!(id[9..].chars().all(|c| c.is_ascii_digit() || ('a'..='f').contains(&c)));
    assert_eq!(id, graph_conflict_id("ws", "feature", "main", "graph", "node", "CARD-1", 3, 9, 12));
    assert_ne!(id, graph_conflict_id("ws", "feature", "main", "graph", "node", "CARD-2", 3, 9, 12));
}

#[test]
fn anchor_ids_valid_exactly_when_slug_is() {
    assert_eq!(normalize_anchor_id(" A:Core-9 ").unwrap(), "a:core-9");
    assert!(normalize_anchor_id(&format!("a:{}", "x".repeat(64))).is_ok());
    assert!(normalize_anchor_id(&format!("a:{}", "x".repeat(65))).is_err());
    assert!(normalize_anchor_id("a:-x").is_err());
    assert!(normalize_anchor_id("a:x_y").is_err());
    assert!(normalize_anchor_id("b:x").is_err());
    let id = normalize_anchor_id("a:Core").unwrap();
    assert_eq!(normalize_anchor_id(&id).unwrap(), id);
}

#[test]
fn string_lists_are_written_as_serde_writes_them() {
    let items = vec!["a\"b".to_string(), "\u{8}\u{c}\n\u{1}".to_string(), "é/\\".to_string()];
    assert_eq!(
        encode_json_string_list(&items),
        "[\"a\\\"b\",\"\\b\\f\\n\\u0001\",\"é/\\\\\"]"
    );
    assert_eq!(encode_json_string_list(&[]), "[]");
}

#[test]
fn dm_threads_ignore_agent_order_for_untrimmed_agents() {
    assert_eq!(normalize_thread_id("dm/ zed /amy ").unwrap(), normalize_thread_id("dm/amy / zed").unwrap());
    assert_eq!(normalize_thread_id("dm/ zed /amy ").unwrap(), "dm/amy/zed");
    let long_a = "a".repeat(150);
    let long_b = "b".repeat(150);
    assert!(normalize_thread_id(&format!("dm/{long_a}/{long_b}")).is_err());
    assert!(normalize_thread_id(&format!("dm/{long_b}/{long_a}")).is_err());
}

#[test]
fn dm_trailing_blanks_count_toward_the_limit_only_in_the_middle() {
    let padded = format!("x{}", " ".repeat(200));
    assert!(normalize_thread_id(&format!("dm/{padded}/y")).is_err());
    assert_eq!(normalize_thread_id(&format!("dm/y/{padded}")).unwrap(), "dm/x/y");
}
