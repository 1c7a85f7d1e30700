use bm_storage::task_edits::{
    check_create_parent, edit_plan_fields, edit_task_fields, entity_counter, entity_id,
    PlanFields, TaskFields, TaskKind,
};
use bm_storage::StoreError;

fn task(revision: i64) -> TaskFields {
    TaskFields { revision, title: "Old".to_string(), description: Some("desc".to_string()) }
}

#[test]
fn entities_are_numbered_by_kind() {
    assert_eq!(entity_id(TaskKind::Plan, 7), "PLAN-007");
    assert_eq!(entity_id(TaskKind::Task, 1234), "TASK-1234");
    assert_eq!(entity_counter(TaskKind::Plan), "plan_seq");
    assert_eq!(entity_counter(TaskKind::Task), "task_seq");
    assert_eq!(TaskKind::Task.as_str(), "task");
    assert_eq!(check_create_parent(TaskKind::Plan, Some("PLAN-1".to_string())).unwrap(), None);
    assert_eq!(
        check_create_parent(TaskKind::Task, Some("PLAN-1".to_string())).unwrap().as_deref(),
        Some("PLAN-1")
    );
    assert!(matches!(
        check_create_parent(TaskKind::Task, None),
        Err(StoreError::InvalidInput("parent is required for kind=task"))
    ));
}

#[test]
fn task_edits_replace_given_fields() {
    let t = edit_task_fields(Some(task(4)), Some(4), Some("New".to_string()), None).unwrap();
    assert_eq!(t.revision, 5);
    assert_eq!(t.title, "New");
    assert_eq!(t.description.as_deref(), Some("desc"));

    let cleared = edit_task_fields(Some(task(4)), None, None, Some(None)).unwrap();
    assert_eq!(cleared.title, "Old");
    assert_eq!(cleared.description, None);

    assert!(matches!(
        edit_task_fields(Some(task(4)), None, None, None),
        Err(StoreError::InvalidInput("no fields to edit"))
    ));
    assert!(matches!(
        edit_task_fields(Some(task(4)), Some(3), Some("x".to_string()), None),
        Err(StoreError::RevisionMismatch { expected: 3, actual: 4 })
    ));
    assert!(matches!(
        edit_task_fields(None, None, Some("x".to_string()), None),
        Err(StoreError::UnknownId)
    ));
}

#[test]
fn plan_edits_replace_given_fields() {
    let plan = PlanFields {
        revision: 0,
        title: "P".to_string(),
        contract: Some("c".to_string()),
        contract_json: None,
    };
    let p = edit_plan_fields(Some(plan.clone()), None, None, Some(None), Some(Some("{}".to_string()))).unwrap();
    assert_eq!(p.revision, 1);
    assert_eq!(p.title, "P");
    assert_eq!(p.contract, None);
    assert_eq!(p.contract_json.as_deref(), Some("{}"));
    assert!(matches!(
        edit_plan_fields(Some(plan), None, None, None, None),
        Err(StoreError::InvalidInput("no fields to edit"))
    ));
}
