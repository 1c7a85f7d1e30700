use bm_storage::step_checkpoints::{
    apply_define, apply_verify, check_verify_request, checkpoints_from_row, step_close_decision,
    step_define_fields, step_done_decision, StepCheckpoints, check_step_note, step_selector,
    StepSelector,
};
use bm_storage::StoreError;

fn cp(completed: bool, criteria: bool, tests: bool) -> StepCheckpoints {
    StepCheckpoints { completed, criteria_confirmed: criteria, tests_confirmed: tests }
}

#[test]
fn rows_read_nonzero_as_set() {
    assert_eq!(checkpoints_from_row(0, 1, 2), cp(false, true, true));
    assert_eq!(checkpoints_from_row(1, 0, 0), cp(true, false, false));
}

#[test]
fn define_lists_fields_in_order_and_needs_one() {
    assert!(matches!(
        step_define_fields(false, false, false, false),
        Err(StoreError::InvalidInput("no fields to define"))
    ));
    assert_eq!(step_define_fields(true, false, true, true).unwrap(), vec!["title", "tests", "blockers"]);
    assert_eq!(
        step_define_fields(true, true, true, true).unwrap(),
        vec!["title", "success_criteria", "tests", "blockers"]
    );
}

#[test]
fn redefining_checks_unconfirms_them() {
    let confirmed = cp(false, true, true);
    assert_eq!(apply_define(confirmed, true, false), cp(false, false, true));
    assert_eq!(apply_define(confirmed, false, true), cp(false, true, false));
    assert_eq!(apply_define(confirmed, false, false), confirmed);
    assert!(matches!(
        step_done_decision(Some(apply_define(confirmed, true, false))),
        Err(StoreError::CheckpointsNotConfirmed { criteria: true, tests: false })
    ));
}

#[test]
fn verify_sets_only_what_it_carries() {
    assert!(matches!(
        check_verify_request(None, None),
        Err(StoreError::InvalidInput("no checkpoints to verify"))
    ));
    assert!(check_verify_request(Some(false), None).is_ok());
    assert_eq!(apply_verify(cp(false, false, true), Some(true), None), cp(false, true, true));
    assert_eq!(apply_verify(cp(false, true, true), None, Some(false)), cp(false, true, false));
}

#[test]
fn done_needs_both_confirmations() {
    assert!(matches!(step_done_decision(None), Err(StoreError::StepNotFound)));
    assert!(matches!(
        step_done_decision(Some(cp(true, true, true))),
        Err(StoreError::InvalidInput("step already completed"))
    ));
    assert!(matches!(
        step_done_decision(Some(cp(false, false, false))),
        Err(StoreError::CheckpointsNotConfirmed { criteria: true, tests: true })
    ));
    assert_eq!(step_done_decision(Some(cp(false, true, true))).unwrap(), cp(true, true, true));
}

#[test]
fn close_verifies_then_marks_done() {
    assert!(matches!(
        step_close_decision(None, None, Some(cp(false, true, true))),
        Err(StoreError::InvalidInput("no checkpoints to verify"))
    ));
    assert!(matches!(
        step_close_decision(Some(true), None, None),
        Err(StoreError::StepNotFound)
    ));
    assert!(matches!(
        step_close_decision(Some(true), Some(true), Some(cp(true, false, false))),
        Err(StoreError::InvalidInput("step already completed"))
    ));
    assert_eq!(
        step_close_decision(Some(true), Some(true), Some(cp(false, false, false))).unwrap(),
        cp(true, true, true)
    );
    assert!(matches!(
        step_close_decision(Some(true), None, Some(cp(false, false, false))),
        Err(StoreError::CheckpointsNotConfirmed { criteria: false, tests: true })
    ));
}

#[test]
fn notes_and_selectors_are_checked() {
    assert!(check_step_note(" hi ").is_ok());
    assert!(matches!(check_step_note("  "), Err(StoreError::InvalidInput("note must not be empty"))));
    assert!(matches!(step_selector(Some("STEP-1"), Some("s:0")), Ok(StepSelector::ById(x)) if x == "STEP-1"));
    assert!(matches!(step_selector(None, Some("s:0.s:1")), Ok(StepSelector::ByPath(x)) if x == "s:0.s:1"));
    assert!(matches!(
        step_selector(None, None),
        Err(StoreError::InvalidInput("step selector is required"))
    ));
}
