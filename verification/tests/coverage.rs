use bm_storage::store::anchor_links::{check_coverage_plan_id, coverage_top_limit, strip_leading_copies};
use bm_storage::store::error::StoreError;
use bm_storage::store::knowledge_keys::{key_list_limit, knowledge_query_key};

fn invalid<T: std::fmt::Debug>(r: Result<T, StoreError>) -> &'static str {
    match r {
        Err(StoreError::InvalidInput(m)) => m,
        other => panic!("expected invalid input, got {other:?}"),
    }
}

fn chars(s: &str) -> Vec<char> {
    s.chars().collect()
}

#[test]
fn coverage_plan_ids_are_checked() {
    assert_eq!(check_coverage_plan_id(" PLAN-012 ").unwrap(), "PLAN-012");
    assert_eq!(check_coverage_plan_id("PLAN-").unwrap(), "PLAN-");
    assert_eq!(check_coverage_plan_id("PLAN-PLAN-7").unwrap(), "PLAN-PLAN-7");
    assert_eq!(invalid(check_coverage_plan_id("  ")), "plan_id must not be empty");
    assert_eq!(
        invalid(check_coverage_plan_id("TASK-1")),
        "plan_id must start with PLAN- and contain only digits"
    );
    assert_eq!(
        invalid(check_coverage_plan_id("PLAN-1a")),
        "plan_id must start with PLAN- and contain only digits"
    );
    assert_eq!(coverage_top_limit(5), 5);
    assert_eq!(coverage_top_limit(500), 20);
}

#[test]
fn leading_copies_are_stripped() {
    assert_eq!(strip_leading_copies(&chars("ababx"), &chars("ab")), chars("x"));
    assert_eq!(strip_leading_copies(&chars("xab"), &chars("ab")), chars("xab"));
    assert_eq!(strip_leading_copies(&chars("abc"), &chars("")), chars("abc"));
}

#[test]
fn knowledge_key_queries_take_slugs() {
    assert_eq!(knowledge_query_key(" k:release-notes ").unwrap(), "release-notes");
    assert_eq!(knowledge_query_key("api-2").unwrap(), "api-2");
    assert_eq!(
        invalid(knowledge_query_key("k:Not A Slug")),
        "key must be a valid slug (<slug> or k:<slug>; lowercase letters/digits + '-')"
    );
    assert_eq!(key_list_limit(0), 0);
    assert_eq!(key_list_limit(999), 200);
}
