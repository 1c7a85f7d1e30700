use bm_storage::store::error::StoreError;
use bm_storage::store::portal_cursors::{check_portal_cursor_set, portal_cursor_key};
use bm_storage::store::plan_slices::{
    check_plan_slice_insert, check_slice_parents, check_slice_status_update, plan_slice_id,
    PlanSliceInsertRequest,
};

fn invalid<T: std::fmt::Debug>(r: Result<T, StoreError>) -> &'static str {
    match r {
        Err(StoreError::InvalidInput(m)) => m,
        other => panic!("expected invalid input, got {other:?}"),
    }
}

fn request() -> PlanSliceInsertRequest {
    PlanSliceInsertRequest {
        plan_id: " PLAN-1 ".to_string(),
        slice_id: " SLC-0000001A ".to_string(),
        slice_task_id: "TASK-9".to_string(),
        title: " Slice ".to_string(),
        objective: " ship it ".to_string(),
        status: " planned ".to_string(),
        budgets_json: Some("{}".to_string()),
    }
}

#[test]
fn slice_ids_are_hex_numbered() {
    assert_eq!(plan_slice_id(26), "SLC-0000001A");
    assert_eq!(plan_slice_id(1), "SLC-00000001");
}

#[test]
fn slice_insert_trims_and_needs_every_field() {
    let d = check_plan_slice_insert(request()).unwrap();
    assert_eq!(d.plan_id, "PLAN-1");
    assert_eq!(d.slice_id, "SLC-0000001A");
    assert_eq!(d.title, "Slice");
    assert_eq!(d.objective, "ship it");
    assert_eq!(d.status, "planned");
    assert_eq!(d.budgets_json.as_deref(), Some("{}"));

    let mut r = request();
    r.title = " ".to_string();
    r.status = "".to_string();
    assert_eq!(invalid(check_plan_slice_insert(r)), "title must not be empty");
    let mut r = request();
    r.slice_task_id = "".to_string();
    assert_eq!(invalid(check_plan_slice_insert(r)), "slice_task_id must not be empty");

    assert!(check_slice_parents(true, true).is_ok());
    assert!(matches!(check_slice_parents(true, false), Err(StoreError::UnknownId)));
    assert!(matches!(check_slice_parents(false, true), Err(StoreError::UnknownId)));
}

#[test]
fn slice_status_update_checks_fields() {
    assert_eq!(
        check_slice_status_update(" P ", " S ", " done ").unwrap(),
        ("P".to_string(), "S".to_string(), "done".to_string())
    );
    assert_eq!(invalid(check_slice_status_update("", "", "")), "plan_id must not be empty");
    assert_eq!(invalid(check_slice_status_update("P", " ", "")), "slice_id must not be empty");
    assert_eq!(invalid(check_slice_status_update("P", "S", " ")), "status must not be empty");
}

#[test]
fn portal_cursor_keys_are_checked() {
    assert_eq!(
        portal_cursor_key(" cli ", " TASK-1 ", " notes ").unwrap(),
        ("cli".to_string(), "TASK-1".to_string(), "notes".to_string())
    );
    assert_eq!(invalid(portal_cursor_key(" ", "", "")), "tool must not be empty");
    assert_eq!(invalid(portal_cursor_key("cli", " ", "")), "target_id must not be empty");
    assert_eq!(invalid(portal_cursor_key("cli", "t", "")), "lane must not be empty");
    assert_eq!(invalid(check_portal_cursor_set("cli", "t", "l", -1)), "last_seq must be >= 0");
    assert!(check_portal_cursor_set("cli", "t", "l", 0).is_ok());
    assert_eq!(invalid(check_portal_cursor_set("", "t", "l", -1)), "tool must not be empty");
}
