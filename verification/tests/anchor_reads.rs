use bm_storage::store::anchor_reads::{
    anchor_id_set, anchors_page, plan_anchors_list, stored_anchor, with_aliases, AnchorsListRequest,
};
use bm_storage::store::anchor_upsert::AnchorRow;
use bm_storage::store::StoreError;

fn row(id: &str) -> AnchorRow {
    AnchorRow {
        id: id.to_string(),
        title: "Core".to_string(),
        kind: "component".to_string(),
        description: None,
        refs: vec![],
        aliases: vec![],
        parent_id: None,
        depends_on: vec![],
        status: "active".to_string(),
        created_at_ms: 1,
        updated_at_ms: 2,
    }
}

#[test]
fn anchors_listing_lowers_filters_and_builds_pattern() {
    let f = plan_anchors_list(&AnchorsListRequest {
        text: Some("  CoRe ".to_string()),
        kind: Some(" Component".to_string()),
        status: Some("   ".to_string()),
        limit: 500,
    });
    assert_eq!(f.text_like.as_deref(), Some("%core%"));
    assert_eq!(f.kind.as_deref(), Some("component"));
    assert!(f.status.is_none());
    assert_eq!(f.limit, 200);
    assert_eq!(f.query_limit, 201);
}

#[test]
fn anchors_listing_allows_zero_limit() {
    let f = plan_anchors_list(&AnchorsListRequest { text: None, kind: None, status: None, limit: 0 });
    assert!(f.text_like.is_none());
    assert_eq!(f.limit, 0);
    assert_eq!(f.query_limit, 1);
}

#[test]
fn stored_anchor_sorts_and_dedups_lists() {
    let a = stored_anchor(
        row("a:core"),
        Some("[\"b\",\"a\",\"b\"]".to_string()),
        Some("  ".to_string()),
    )
    .unwrap();
    assert_eq!(a.refs, vec!["a".to_string(), "b".to_string()]);
    assert!(a.depends_on.is_empty());
    assert_eq!(a.id, "a:core");
}

#[test]
fn stored_anchor_refuses_unreadable_lists() {
    match stored_anchor(row("a:core"), None, Some("not json".to_string())) {
        Err(StoreError::InvalidInput(m)) => assert_eq!(m, "stored anchor list is invalid json"),
        _ => panic!("expected a refusal"),
    }
}

#[test]
fn anchors_page_and_aliases() {
    let r = anchors_page(vec![row("a:a"), row("a:b"), row("a:c")], 2);
    assert!(r.has_more);
    assert_eq!(r.anchors.len(), 2);
    let r0 = anchors_page(vec![row("a:a")], 0);
    assert!(r0.has_more);
    assert!(r0.anchors.is_empty());
    let a = with_aliases(row("a:core"), vec!["a:old".to_string(), "a:older".to_string(), "a:old".to_string()]);
    assert_eq!(a.aliases, vec!["a:old".to_string(), "a:older".to_string()]);
}

#[test]
fn anchor_id_set_normalizes_sorts_and_refuses() {
    let ids = anchor_id_set(&vec!["a:Zed".to_string(), " a:core ".to_string(), "a:zed".to_string()]).unwrap();
    assert_eq!(ids, vec!["a:core".to_string(), "a:zed".to_string()]);
    assert!(matches!(anchor_id_set(&vec!["a:core".to_string(), "  ".to_string()]), Err(StoreError::InvalidInput(_))));
    assert!(anchor_id_set(&vec![]).unwrap().is_empty());
}
