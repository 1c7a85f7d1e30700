use bm_storage::model::StepStatus;
use bm_storage::task_summary::summarize_steps;

fn step(id: &str, path: &str, completed: bool, criteria: bool, tests: bool) -> StepStatus {
    StepStatus {
        step_id: id.to_string(),
        path: path.to_string(),
        title: format!("title {}", id),
        criteria_confirmed: criteria,
        tests_confirmed: tests,
        completed,
    }
}

#[test]
fn summary_counts_each_kind_of_step() {
    let steps = vec![
        step("STEP-00000001", "s:0", true, true, true),
        step("STEP-00000002", "s:1", false, true, false),
        step("STEP-00000003", "s:1.s:0", false, false, false),
        step("STEP-00000004", "s:2", true, false, false),
    ];
    let summary = summarize_steps(&steps);
    assert_eq!(summary.total_steps, 4);
    assert_eq!(summary.completed_steps, 2);
    assert_eq!(summary.open_steps, 2);
    assert_eq!(summary.missing_criteria, 1);
    assert_eq!(summary.missing_tests, 2);
    let first = summary.first_open.expect("an open step");
    assert_eq!(first.step_id, "STEP-00000002");
    assert_eq!(first.path, "s:1");
    assert_eq!(first.title, "title STEP-00000002");
    assert!(first.criteria_confirmed);
    assert!(!first.tests_confirmed);
    assert!(!first.completed);
}

#[test]
fn summary_of_all_done_task_has_no_open_step() {
    let steps = vec![
        step("STEP-00000001", "s:0", true, true, true),
        step("STEP-00000002", "s:1", true, true, true),
    ];
    let summary = summarize_steps(&steps);
    assert_eq!(summary.total_steps, 2);
    assert_eq!(summary.completed_steps, 2);
    assert_eq!(summary.open_steps, 0);
    assert_eq!(summary.missing_criteria, 0);
    assert_eq!(summary.missing_tests, 0);
    assert!(summary.first_open.is_none());
}

#[test]
fn summary_of_task_without_steps_is_zero() {
    let summary = summarize_steps(&[]);
    assert_eq!(summary.total_steps, 0);
    assert_eq!(summary.completed_steps + summary.open_steps, 0);
    assert!(summary.first_open.is_none());
}
