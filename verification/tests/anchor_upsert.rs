use bm_storage::store::anchor_upsert::{
    anchor_upsert_row, check_alias_standings, check_anchor_upsert, sorted_strings, AliasStanding,
    AnchorUpsertRequest,
};
use bm_storage::store::error::StoreError;

fn strings(items: &[&str]) -> Vec<String> {
    items.iter().map(|s| s.to_string()).collect()
}

fn request() -> AnchorUpsertRequest {
    AnchorUpsertRequest {
        id: " A:Storage ".to_string(),
        title: "  Storage layer ".to_string(),
        kind: " Component ".to_string(),
        description: Some("   ".to_string()),
        refs: strings(&["z.rs", " a.rs ", "z.rs", ""]),
        aliases: strings(&["a:db", " A:Persist "]),
        parent_id: Some("a:core".to_string()),
        depends_on: strings(&["a:sqlite", "a:json", "A:SQLITE"]),
        status: "ACTIVE".to_string(),
    }
}

fn invalid<T: std::fmt::Debug>(r: Result<T, StoreError>) -> &'static str {
    match r {
        Err(StoreError::InvalidInput(m)) => m,
        other => panic!("expected invalid input, got {other:?}"),
    }
}

#[test]
fn upsert_normalizes_and_sorts() {
    let draft = check_anchor_upsert(&request()).unwrap();
    assert_eq!(draft.id, "a:storage");
    assert_eq!(draft.title, "Storage layer");
    assert_eq!(draft.kind, "component");
    assert_eq!(draft.description, None);
    assert_eq!(draft.refs, strings(&["a.rs", "z.rs"]));
    assert_eq!(draft.aliases, strings(&["a:db", "a:persist"]));
    assert_eq!(draft.parent_id.as_deref(), Some("a:core"));
    assert_eq!(draft.depends_on, strings(&["a:json", "a:sqlite"]));
    assert_eq!(draft.status, "active");
}

#[test]
fn upsert_refuses_self_links() {
    let mut r = request();
    r.aliases = strings(&["a:STORAGE"]);
    assert_eq!(invalid(check_anchor_upsert(&r)), "anchor.aliases must not include anchor.id");

    let mut r = request();
    r.parent_id = Some(" a:storage".to_string());
    assert_eq!(invalid(check_anchor_upsert(&r)), "anchor.parent_id must not equal anchor.id");

    let mut r = request();
    r.depends_on = strings(&["a:x", "a:storage"]);
    assert_eq!(invalid(check_anchor_upsert(&r)), "anchor.depends_on must not include anchor.id");
}

#[test]
fn upsert_checks_fields_in_order() {
    let mut r = request();
    r.id = "storage".to_string();
    r.title = " ".to_string();
    assert_eq!(invalid(check_anchor_upsert(&r)), "anchor.id must start with a:");

    let mut r = request();
    r.title = " ".to_string();
    r.kind = "weird".to_string();
    assert_eq!(invalid(check_anchor_upsert(&r)), "anchor.title must not be empty");

    let mut r = request();
    r.title = "t".repeat(121);
    assert_eq!(invalid(check_anchor_upsert(&r)), "anchor.title is too long");

    let mut r = request();
    r.kind = "weird".to_string();
    assert_eq!(invalid(check_anchor_upsert(&r)), "anchor.kind is invalid");

    let mut r = request();
    r.description = Some("d".repeat(281));
    assert_eq!(invalid(check_anchor_upsert(&r)), "anchor.description is too long");

    let mut r = request();
    r.refs = (0..33).map(|i| format!("r{i}")).collect();
    assert_eq!(invalid(check_anchor_upsert(&r)), "list exceeds max_items");

    let mut r = request();
    r.refs = vec!["x".repeat(221)];
    assert_eq!(invalid(check_anchor_upsert(&r)), "list item is too long");

    let mut r = request();
    r.aliases = strings(&["a:ok", "nope", "also-bad"]);
    assert_eq!(invalid(check_anchor_upsert(&r)), "anchor.id must start with a:");

    let mut r = request();
    r.status = "gone".to_string();
    assert_eq!(invalid(check_anchor_upsert(&r)), "anchor.status is invalid");

    let mut r = request();
    r.description = Some("  kept  ".to_string());
    assert_eq!(
        check_anchor_upsert(&r).unwrap().description.as_deref(),
        Some("kept")
    );
}

#[test]
fn aliases_must_be_free() {
    let id = "a:storage".to_string();
    let free = AliasStanding { is_anchor_id: false, owner: None };
    let ours = AliasStanding { is_anchor_id: false, owner: Some("a:storage".to_string()) };
    let theirs = AliasStanding { is_anchor_id: false, owner: Some("a:other".to_string()) };
    let taken = AliasStanding { is_anchor_id: true, owner: None };
    assert!(check_alias_standings(&id, &[free.clone(), ours.clone()]).is_ok());
    assert_eq!(
        invalid(check_alias_standings(&id, &[free.clone(), theirs.clone(), taken.clone()])),
        "anchor.aliases contains an alias owned by another anchor"
    );
    assert_eq!(
        invalid(check_alias_standings(&id, &[ours, taken, theirs])),
        "anchor.aliases must not include an existing anchor id"
    );
}

#[test]
fn upsert_row_keeps_creation_time() {
    let draft = check_anchor_upsert(&request()).unwrap();
    let fresh = anchor_upsert_row(draft.clone(), None, 50);
    assert!(fresh.created);
    assert_eq!(fresh.anchor.created_at_ms, 50);
    assert_eq!(fresh.anchor.updated_at_ms, 50);
    let again = anchor_upsert_row(draft, Some(10), 60);
    assert!(!again.created);
    assert_eq!(again.anchor.created_at_ms, 10);
    assert_eq!(again.anchor.updated_at_ms, 60);
    assert_eq!(again.anchor.aliases, strings(&["a:db", "a:persist"]));
}

#[test]
fn sorted_strings_sorts_and_dedups() {
    let v = sorted_strings(&strings(&["b", "a", "c", "a"]));
    assert_eq!(v, strings(&["a", "b", "c"]));
}
