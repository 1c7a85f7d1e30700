use bm_storage::store::anchor_rename::{deps_without_renamed, rename_dep_list};
use bm_storage::store::anchors_merge::rewrite_merged_deps;

fn v(items: &[&str]) -> Vec<String> {
    items.iter().map(|s| s.to_string()).collect()
}

#[test]
fn merged_dependencies_point_at_the_target() {
    let (out, changed) = rewrite_merged_deps(&v(&["a:old", "a:b", "a:self", "a:core"]), &v(&["a:old"]), "a:core", "a:self");
    assert_eq!(out, v(&["a:b", "a:core"]));
    assert!(changed);
    let (out, changed) = rewrite_merged_deps(&v(&["a:b", "a:c"]), &v(&["a:old"]), "a:core", "a:self");
    assert_eq!(out, v(&["a:b", "a:c"]));
    assert!(!changed);
}

#[test]
fn renamed_dependencies_follow_the_new_id() {
    assert_eq!(rename_dep_list(&v(&["a:z", "a:old", "a:alias"]), &v(&["a:old", "a:alias"]), "a:new"), Some(v(&["a:new", "a:z"])));
    assert_eq!(rename_dep_list(&v(&["a:z"]), &v(&["a:old"]), "a:new"), None);
}

#[test]
fn renamed_anchor_drops_dependencies_on_itself() {
    assert_eq!(deps_without_renamed(&v(&["a:z", "a:old", "a:new", "a:b", "a:z"]), &v(&["a:old"]), "a:new"), v(&["a:b", "a:z"]));
}
