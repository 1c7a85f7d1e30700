use bm_storage::store::anchor_cycles::parent_cycle_anchors;
use bm_storage::store::anchor_links::{card_is_canon, extract_anchor_ids, task_id_from_task_branch};
use bm_storage::store::anchor_rename::{rename_anchor_fields, rename_ids, rename_in_depends};
use bm_storage::store::anchors::{
    decode_json_string_list, encode_json_string_list, normalize_anchor_id, normalize_anchor_kind,
    normalize_anchor_status, normalize_string_list, title_from_anchor_id,
};
use bm_storage::store::anchors_lint::{
    lint_anchors, lint_link_ids, severity_rank, sort_issues, AnchorAlias, AnchorsLintIssue,
    LintAnchor,
};
use bm_storage::store::anchors_merge::replace_anchor_refs_in_depends_json;
use bm_storage::store::error::StoreError;
use bm_storage::store::knowledge_keys::{
    extract_anchor_ids as keys_anchor_ids, extract_key_slug, normalize_anchor_id_from_tag,
    normalize_key_slug,
};

fn strings(v: &[&str]) -> Vec<String> {
    v.iter().map(|s| s.to_string()).collect()
}

fn invalid<T: std::fmt::Debug>(r: Result<T, StoreError>) -> &'static str {
    match r {
        Err(StoreError::InvalidInput(m)) => m,
        other => panic!("expected invalid input, got {other:?}"),
    }
}

#[test]
fn anchor_ids_are_canonicalized() {
    assert_eq!(normalize_anchor_id("  A:Core-Loop ").unwrap(), "a:core-loop");
    assert_eq!(normalize_anchor_id("a:9lives").unwrap(), "a:9lives");
    assert_eq!(invalid(normalize_anchor_id("   ")), "anchor.id must not be empty");
    assert_eq!(invalid(normalize_anchor_id("core")), "anchor.id must start with a:");
    assert_eq!(invalid(normalize_anchor_id("a:")), "anchor.id slug must not be empty");
    assert_eq!(invalid(normalize_anchor_id("a:-x")), "anchor.id slug must start with [a-z0-9]");
    assert_eq!(invalid(normalize_anchor_id("a:x_y")), "anchor.id slug contains invalid characters");
    let long = format!("a:{}", "x".repeat(65));
    assert_eq!(invalid(normalize_anchor_id(&long)), "anchor.id slug is too long");
    assert!(normalize_anchor_id(&format!("a:{}", "x".repeat(64))).is_ok());
}

#[test]
fn canonical_anchor_ids_are_fixed_points() {
    for raw in ["A:Core", "a:x-1", " a:zz "] {
        let once = normalize_anchor_id(raw).unwrap();
        assert_eq!(normalize_anchor_id(&once).unwrap(), once);
    }
}

#[test]
fn anchor_titles_from_ids() {
    assert_eq!(title_from_anchor_id("a:core-loop"), "Core Loop");
    assert_eq!(title_from_anchor_id(" a:x--y- "), "X Y");
    assert_eq!(title_from_anchor_id("a:"), "Anchor");
    assert_eq!(title_from_anchor_id("plain"), "Plain");
    assert_eq!(title_from_anchor_id(&format!("a:{}", "w".repeat(200))).chars().count(), 120);
}

#[test]
fn anchor_kinds_and_statuses() {
    assert_eq!(normalize_anchor_kind(" Test-Surface ").unwrap(), "test-surface");
    assert_eq!(invalid(normalize_anchor_kind("")), "anchor.kind must not be empty");
    assert_eq!(invalid(normalize_anchor_kind("module")), "anchor.kind is invalid");
    assert_eq!(normalize_anchor_status("ACTIVE").unwrap(), "active");
    assert_eq!(invalid(normalize_anchor_status(" ")), "anchor.status must not be empty");
    assert_eq!(invalid(normalize_anchor_status("gone")), "anchor.status is invalid");
}

#[test]
fn string_lists_are_trimmed_and_deduplicated_in_order() {
    let out = normalize_string_list(strings(&[" b ", "a", "", "b", "  "]), 10, 5).unwrap();
    assert_eq!(out, strings(&["b", "a"]));
    assert_eq!(invalid(normalize_string_list(strings(&["a", "b"]), 1, 5)), "list exceeds max_items");
    assert_eq!(invalid(normalize_string_list(strings(&["toolong"]), 5, 3)), "list item is too long");
}

#[test]
fn stored_lists_round_trip_through_json() {
    let items = strings(&["a:x", "quote\"d", "ü"]);
    let json = encode_json_string_list(&items);
    assert_eq!(json, "[\"a:x\",\"quote\\\"d\",\"ü\"]");
    assert_eq!(decode_json_string_list(Some(json)).unwrap(), items);
    assert_eq!(decode_json_string_list(None).unwrap(), Vec::<String>::new());
    assert_eq!(decode_json_string_list(Some("  ".to_string())).unwrap(), Vec::<String>::new());
    assert_eq!(invalid(decode_json_string_list(Some("{oops".to_string()))), "stored anchor list is invalid json");
}

#[test]
fn anchor_links_from_tags() {
    let tags = strings(&["a:Foo", "x", " a:bar ", "a:BAD!", "a:bar"]);
    assert_eq!(extract_anchor_ids(&tags), strings(&["a:bar", "a:foo"]));
    assert!(card_is_canon(" Decision ", &[]));
    assert!(card_is_canon("note", &strings(&["pinned"])));
    assert!(card_is_canon("note", &strings(&["v:canon"])));
    assert!(!card_is_canon("note", &strings(&["Pinned"])));
    assert_eq!(task_id_from_task_branch("task/TASK-001"), Some("TASK-001"));
    assert_eq!(task_id_from_task_branch("task/foo"), None);
    assert_eq!(task_id_from_task_branch("main"), None);
}

#[test]
fn knowledge_keys_from_tags() {
    assert_eq!(normalize_key_slug(" db-pool "), Some("db-pool".to_string()));
    assert_eq!(normalize_key_slug("Db"), None);
    assert_eq!(normalize_key_slug(&"k".repeat(65)), None);
    assert_eq!(extract_key_slug(&strings(&["x", "k:one", " k:one"])), Some("one".to_string()));
    assert_eq!(extract_key_slug(&strings(&["k:one", "k:two"])), None);
    assert_eq!(extract_key_slug(&strings(&["k:Bad"])), None);
    assert_eq!(extract_key_slug(&strings(&["note"])), None);
    assert_eq!(normalize_anchor_id_from_tag("core"), Some("a:core".to_string()));
    assert_eq!(normalize_anchor_id_from_tag("A:Core"), Some("a:core".to_string()));
    assert_eq!(normalize_anchor_id_from_tag("bad tag"), None);
    assert_eq!(keys_anchor_ids(&strings(&["b", "a:a", "b", " "])), strings(&["a:a", "a:b"]));
}

#[test]
fn merge_rewrites_dependencies() {
    let raw = Some("[\"a:x\",\"a:self\",\"a:y\",\"a:k\"]".to_string());
    let (json, changed) =
        replace_anchor_refs_in_depends_json(raw, &strings(&["a:x", "a:y"]), "a:into", "a:self").unwrap();
    assert_eq!(json.as_deref(), Some("[\"a:into\",\"a:k\"]"));
    assert!(changed);
    let (json, changed) =
        replace_anchor_refs_in_depends_json(Some("[\"a:k\"]".to_string()), &strings(&["a:x"]), "a:into", "a:self").unwrap();
    assert_eq!(json.as_deref(), Some("[\"a:k\"]"));
    assert!(!changed);
}

#[test]
fn rename_ids_are_checked() {
    assert_eq!(rename_ids("A:Foo", "a:bar").unwrap(), ("a:foo".to_string(), "a:bar".to_string()));
    assert_eq!(invalid(rename_ids("a:foo", "A:FOO")), "anchor.to_id must not equal anchor.from_id");
    assert_eq!(invalid(rename_ids("foo", "a:bar")), "anchor.id must start with a:");
    assert_eq!(invalid(rename_ids("a:foo", "")), "anchor.id must not be empty");
}

#[test]
fn renamed_anchor_fields() {
    let r = rename_anchor_fields(
        "a:foo",
        "a:bar",
        &strings(&["a:f1", "a:f0", "a:f1"]),
        Some("[\"x\",\"a\",\"x\"]".to_string()),
        Some("a:f1".to_string()),
        Some("[\"a:bar\",\"a:z\",\"a:foo\",\"a:f0\",\"a:b\"]".to_string()),
    )
    .unwrap();
    assert_eq!(r.refs_json, "[\"a\",\"x\"]");
    assert_eq!(r.parent_id, None);
    assert_eq!(r.depends_on_json, "[\"a:b\",\"a:z\"]");
    assert_eq!(r.rewrite_ids, strings(&["a:f0", "a:f1", "a:foo"]));

    let kept = rename_anchor_fields("a:foo", "a:bar", &[], None, Some("a:p".to_string()), None).unwrap();
    assert_eq!(kept.parent_id.as_deref(), Some("a:p"));
    assert_eq!(kept.refs_json, "[]");
    assert_eq!(kept.depends_on_json, "[]");

    assert_eq!(
        invalid(rename_anchor_fields("a:foo", "a:bar", &strings(&["a:bar"]), None, None, None)),
        "anchor.to_id must not match an existing alias id"
    );
    assert_eq!(
        invalid(rename_anchor_fields("a:foo", "a:bar", &[], Some("[".to_string()), None, None)),
        "stored anchor list is invalid json"
    );
}

#[test]
fn rename_rewrites_other_dependencies() {
    let rewrite = strings(&["a:f0", "a:f1", "a:foo"]);
    assert_eq!(
        rename_in_depends(Some("[\"a:q\",\"a:f1\",\"a:bar\"]".to_string()), &rewrite, "a:bar").unwrap(),
        Some("[\"a:bar\",\"a:q\"]".to_string())
    );
    assert_eq!(rename_in_depends(Some("[\"a:q\"]".to_string()), &rewrite, "a:bar").unwrap(), None);
    assert_eq!(rename_in_depends(None, &rewrite, "a:bar").unwrap(), None);
}

fn anchor(id: &str, parent: Option<&str>, deps: Option<&str>, status: &str) -> LintAnchor {
    LintAnchor {
        id: id.to_string(),
        parent_id: parent.map(|p| p.to_string()),
        depends_on_json: deps.map(|d| d.to_string()),
        status: status.to_string(),
    }
}

fn alias(alias_id: &str, anchor_id: &str) -> AnchorAlias {
    AnchorAlias { alias_id: alias_id.to_string(), anchor_id: anchor_id.to_string() }
}

fn lint_fixture() -> (Vec<LintAnchor>, Vec<AnchorAlias>, Vec<bool>) {
    let anchors = vec![
        anchor("a:alpha", Some("a:beta"), Some("[\"a:gamma\",\"a:old\",\"a:zzz\",\"a:alpha\"]"), "active"),
        anchor("a:beta", Some("a:alpha"), None, "active"),
        anchor("a:gamma", None, None, " Deprecated "),
    ];
    let aliases = vec![alias("a:beta", "a:gamma"), alias("a:ghost", "a:missing"), alias("a:old", "a:gamma")];
    (anchors, aliases, vec![true, false, false])
}

fn codes(issues: &[AnchorsLintIssue]) -> Vec<(String, String)> {
    issues.iter().map(|i| (i.code.clone(), i.anchor.clone())).collect()
}

#[test]
fn lint_reports_every_kind_of_issue_in_order() {
    let (anchors, aliases, linked) = lint_fixture();
    let res = lint_anchors(&anchors, &aliases, &linked, 50).unwrap();
    assert!(!res.has_more);
    let expected = vec![
        ("ALIAS_DANGLING", "a:ghost"),
        ("PARENT_CYCLE", "a:alpha"),
        ("SELF_DEPENDS_ON", "a:alpha"),
        ("UNKNOWN_DEPENDS_ON", "a:alpha"),
        ("ALIAS_COLLIDES_WITH_ANCHOR_ID", "a:beta"),
        ("ORPHAN_ANCHOR", "a:beta"),
        ("RELATION_USES_ALIAS", "a:alpha"),
    ];
    let expected: Vec<(String, String)> =
        expected.into_iter().map(|(c, a)| (c.to_string(), a.to_string())).collect();
    assert_eq!(codes(&res.issues), expected);
    assert_eq!(res.issues[0].message, "alias a:ghost points to missing anchor a:missing");
    assert_eq!(res.issues[0].severity, "error");
    assert_eq!(res.issues[1].message, "parent_id cycle detected");
    assert_eq!(res.issues[6].message, "depends_on a:old is an alias for a:gamma");
    assert_eq!(res.issues[6].severity, "warning");
    assert_eq!(res.issues[5].hint, "Fix: attach at least one decision/evidence/test to this anchor, or merge/deprecate it.");
}

#[test]
fn lint_pages_the_sorted_issues() {
    let (anchors, aliases, linked) = lint_fixture();
    let res = lint_anchors(&anchors, &aliases, &linked, 5).unwrap();
    assert!(res.has_more);
    assert_eq!(res.issues.len(), 5);
    assert_eq!(res.issues[4].code, "ALIAS_COLLIDES_WITH_ANCHOR_ID");
    let one = lint_anchors(&anchors, &aliases, &linked, 0).unwrap();
    assert_eq!(one.issues.len(), 1);
    assert_eq!(one.issues[0].code, "ALIAS_DANGLING");
}

#[test]
fn lint_parent_issues() {
    let anchors = vec![
        anchor("a:p", Some("a:p"), None, "active"),
        anchor("a:q", Some("a:q-old"), None, "active"),
        anchor("a:r", Some("a:nowhere"), None, "active"),
        anchor("a:s", Some("a:s-old"), None, "active"),
    ];
    let aliases = vec![alias("a:q-old", "a:q"), alias("a:s-old", "a:p")];
    let res = lint_anchors(&anchors, &aliases, &[true, true, true, true], 200).unwrap();
    let got: Vec<(String, String, String)> =
        res.issues.iter().map(|i| (i.code.clone(), i.anchor.clone(), i.message.clone())).collect();
    assert_eq!(
        got,
        vec![
            ("PARENT_CYCLE".to_string(), "a:p".to_string(), "parent_id cycle detected".to_string()),
            ("SELF_PARENT".to_string(), "a:p".to_string(), "parent_id must not equal anchor id".to_string()),
            ("SELF_PARENT".to_string(), "a:q".to_string(), "parent_id a:q-old resolves back to a:q via alias mapping".to_string()),
            ("UNKNOWN_PARENT".to_string(), "a:r".to_string(), "parent_id a:nowhere is not a known anchor id".to_string()),
            ("RELATION_USES_ALIAS".to_string(), "a:s".to_string(), "parent_id a:s-old is an alias for a:p".to_string()),
        ]
    );
}

#[test]
fn lint_fails_on_unreadable_dependencies() {
    let anchors = vec![anchor("a:x", None, Some("not json"), "active")];
    assert_eq!(invalid(lint_anchors(&anchors, &[], &[true], 10)), "stored anchor list is invalid json");
}

#[test]
fn lint_without_issues() {
    let anchors = vec![anchor("a:x", None, Some(" "), "active"), anchor("a:y", Some("a:x"), Some("[\"a:x\"]"), "deprecated")];
    let res = lint_anchors(&anchors, &[], &[true, false], 10).unwrap();
    assert!(res.issues.is_empty());
    assert!(!res.has_more);
}

#[test]
fn link_lookup_ids_include_aliases() {
    let aliases = vec![alias("a:z", "a:x"), alias("a:b", "a:x"), alias("a:c", "a:other"), alias("a:b", "a:x")];
    assert_eq!(lint_link_ids("a:x", &aliases), strings(&["a:b", "a:x", "a:z"]));
    assert_eq!(lint_link_ids("a:q", &aliases), strings(&["a:q"]));
}

#[test]
fn parent_cycles_are_reported_once_by_smallest_id() {
    let anchors = vec![
        anchor("a:c", Some("a:a"), None, "active"),
        anchor("a:a", Some("a:b"), None, "active"),
        anchor("a:b", Some("a:c"), None, "active"),
        anchor("a:d", Some("a:a"), None, "active"),
        anchor("a:e", Some("a:e"), None, "active"),
        anchor("a:f", Some("a:missing"), None, "active"),
    ];
    let found: Vec<String> = parent_cycle_anchors(&anchors).iter().map(|v| v.iter().collect()).collect();
    assert_eq!(found, strings(&["a:a", "a:e"]));
    let none = vec![anchor("a:a", Some("a:b"), None, "active"), anchor("a:b", None, None, "active")];
    assert!(parent_cycle_anchors(&none).is_empty());
}

#[test]
fn issues_sort_by_severity_then_texts() {
    let mk = |code: &str, sev: &str, anchor: &str| AnchorsLintIssue {
        code: code.to_string(),
        severity: sev.to_string(),
        anchor: anchor.to_string(),
        message: "m".to_string(),
        hint: "h".to_string(),
    };
    let sorted = sort_issues(vec![mk("B", "info", "a"), mk("A", "warning", "b"), mk("A", "warning", "A"), mk("Z", " ERROR ", "z")]);
    let got: Vec<(String, String)> = sorted.iter().map(|i| (i.code.clone(), i.anchor.clone())).collect();
    assert_eq!(
        got,
        vec![
            ("Z".to_string(), "z".to_string()),
            ("A".to_string(), "A".to_string()),
            ("A".to_string(), "b".to_string()),
            ("B".to_string(), "a".to_string()),
        ]
    );
    assert_eq!(severity_rank("Error"), 0);
    assert_eq!(severity_rank(" warning"), 1);
    assert_eq!(severity_rank("note"), 2);
}

#[test]
fn lint_ties_keep_discovery_order() {
    let anchors = vec![
        anchor("a:x", None, None, "active"),
        anchor("a:X", None, None, "active"),
    ];
    let res = lint_anchors(&anchors, &[], &[false, false], 10).unwrap();
    let ids: Vec<&str> = res.issues.iter().map(|i| i.anchor.as_str()).collect();
    assert_eq!(ids, vec!["a:x", "a:X"]);
    let reversed = vec![
        anchor("a:X", None, None, "active"),
        anchor("a:x", None, None, "active"),
    ];
    let res = lint_anchors(&reversed, &[], &[false, false], 10).unwrap();
    let ids: Vec<&str> = res.issues.iter().map(|i| i.anchor.as_str()).collect();
    assert_eq!(ids, vec!["a:X", "a:x"]);
}
