use bm_storage::store::anchors_merge::{merge_alias_insert, plan_anchors_merge, resolve_merge_source};
use bm_storage::store::StoreError;

fn refusal<T>(r: Result<T, StoreError>) -> &'static str {
    match r {
        Err(StoreError::InvalidInput(m)) => m,
        _ => panic!("expected an invalid-input error"),
    }
}

fn raws(v: &[&str]) -> Vec<String> {
    v.iter().map(|s| s.to_string()).collect()
}

#[test]
fn merge_request_is_normalized() {
    let (into, from) = plan_anchors_merge(" A:Core ", &raws(&["a:zed", "A:old", "a:zed"])).unwrap();
    assert_eq!(into, "a:core");
    assert_eq!(from, raws(&["a:old", "a:zed"]));
}

#[test]
fn merge_request_refusals_in_order() {
    assert_eq!(refusal(plan_anchors_merge("core", &raws(&[]))), "anchor.id must start with a:");
    assert_eq!(refusal(plan_anchors_merge("a:core", &raws(&[]))), "anchors_merge.from must not be empty");
    assert_eq!(refusal(plan_anchors_merge("a:core", &raws(&["a:x", "bad"]))), "anchor.id must start with a:");
    assert_eq!(
        refusal(plan_anchors_merge("a:core", &raws(&["a:x", "A:CORE"]))),
        "anchors_merge.from must not include into"
    );
}

#[test]
fn merge_sources_resolve() {
    assert_eq!(resolve_merge_source(true, &None, "a:core").unwrap(), false);
    assert_eq!(resolve_merge_source(false, &Some("a:core".to_string()), "a:core").unwrap(), true);
    assert_eq!(
        refusal(resolve_merge_source(false, &Some("a:other".to_string()), "a:core")),
        "anchors_merge.from resolves to a different canonical anchor"
    );
    assert_eq!(refusal(resolve_merge_source(false, &None, "a:core")), "anchors_merge.from not found");
}

#[test]
fn merge_alias_rows() {
    assert_eq!(merge_alias_insert(&None, "a:core").unwrap(), true);
    assert_eq!(merge_alias_insert(&Some("a:core".to_string()), "a:core").unwrap(), false);
    assert_eq!(
        refusal(merge_alias_insert(&Some("a:x".to_string()), "a:core")),
        "anchors_merge.from collides with an existing alias owned by another anchor"
    );
}
