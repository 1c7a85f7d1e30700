use bm_storage::branches::{
    base_after_bootstrap, branch_known, check_branch_delete, check_branch_rename,
    check_checkout_branch, check_new_branch_name, choose_branch_base, needs_default_branch,
    should_set_checkout, BaseChoice, BranchDeleteFacts, BranchPresence,
};
use bm_storage::StoreError;

fn invalid<T: std::fmt::Debug>(r: Result<T, StoreError>) -> &'static str {
    match r {
        Err(StoreError::InvalidInput(m)) => m,
        other => panic!("expected invalid input, got {other:?}"),
    }
}

fn facts(exists: bool, checked_out: Option<&str>, has_children: bool, referenced: bool) -> BranchDeleteFacts {
    BranchDeleteFacts {
        exists,
        checked_out: checked_out.map(|s| s.to_string()),
        has_children,
        referenced,
    }
}

#[test]
fn a_branch_exists_when_named_anywhere() {
    let none = BranchPresence { in_branches: false, in_reasoning_refs: false, in_doc_entries: false };
    assert!(!branch_known(none));
    assert!(branch_known(BranchPresence { in_doc_entries: true, ..none }));
    assert!(branch_known(BranchPresence { in_reasoning_refs: true, ..none }));
    assert!(needs_default_branch(false));
    assert!(!needs_default_branch(true));
    assert!(should_set_checkout(false, true));
    assert!(!should_set_checkout(true, true));
    assert!(!should_set_checkout(false, false));
}

#[test]
fn delete_refuses_the_checked_out_and_used_branches() {
    assert_eq!(check_branch_delete(" feature ", &facts(true, Some("main"), false, false)).unwrap(), "feature");
    assert_eq!(invalid(check_branch_delete("  ", &facts(true, None, false, false))), "name must not be empty");
    assert!(matches!(
        check_branch_delete("feature", &facts(false, None, false, false)),
        Err(StoreError::UnknownBranch)
    ));
    assert_eq!(
        invalid(check_branch_delete(" feature", &facts(true, Some("feature"), false, false))),
        "cannot delete the currently checked-out branch"
    );
    assert_eq!(
        invalid(check_branch_delete("feature", &facts(true, None, true, true))),
        "branch has dependent branches; delete or rebase them first"
    );
    assert_eq!(
        invalid(check_branch_delete("feature", &facts(true, None, false, true))),
        "branch is referenced by reasoning refs; move them before deletion"
    );
}

#[test]
fn rename_needs_two_distinct_names() {
    assert_eq!(
        check_branch_rename(" a ", "b", true, false).unwrap(),
        ("a".to_string(), "b".to_string())
    );
    assert_eq!(invalid(check_branch_rename(" ", "b", true, false)), "from must not be empty");
    assert_eq!(invalid(check_branch_rename("a", "", true, false)), "to must not be empty");
    assert_eq!(invalid(check_branch_rename("a", " a ", true, false)), "from and to must differ");
    assert!(matches!(check_branch_rename("a", "b", false, false), Err(StoreError::UnknownBranch)));
    assert!(matches!(check_branch_rename("a", "b", true, true), Err(StoreError::BranchAlreadyExists)));
}

#[test]
fn checkout_and_create_checks() {
    assert_eq!(invalid(check_checkout_branch(" ", true)), "branch must not be empty");
    assert!(matches!(check_checkout_branch("x", false), Err(StoreError::UnknownBranch)));
    assert!(check_checkout_branch("x", true).is_ok());
    assert_eq!(invalid(check_new_branch_name("", false)), "name must not be empty");
    assert!(matches!(check_new_branch_name("x", true), Err(StoreError::BranchAlreadyExists)));
    assert!(check_new_branch_name("x", false).is_ok());
}

#[test]
fn new_branch_base_is_given_checked_out_or_default() {
    assert!(matches!(choose_branch_base(Some("dev"), None), Ok(BaseChoice::Use(b)) if b == "dev"));
    assert_eq!(invalid(choose_branch_base(Some("  "), Some("main".to_string()))), "from must not be empty");
    assert!(matches!(
        choose_branch_base(None, Some("work".to_string())),
        Ok(BaseChoice::Use(b)) if b == "work"
    ));
    assert!(matches!(choose_branch_base(None, None), Ok(BaseChoice::Bootstrap)));
    assert_eq!(base_after_bootstrap(Some("main".to_string()), false).unwrap(), "main");
    assert_eq!(base_after_bootstrap(None, true).unwrap(), "main");
    assert_eq!(
        invalid(base_after_bootstrap(None, false)),
        "from is required when no checkout branch is set"
    );
}
