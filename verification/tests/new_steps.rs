use bm_storage::steps::plan_new_steps;
use bm_storage::StoreError;

#[test]
fn new_steps_follow_the_last_ordinal() {
    let v = plan_new_steps(&[], Some(1), &[10, 11]).unwrap();
    assert_eq!(v.len(), 2);
    assert_eq!(v[0].step_id, "STEP-0000000A");
    assert_eq!(v[0].path, "s:2");
    assert_eq!(v[1].step_id, "STEP-0000000B");
    assert_eq!(v[1].path, "s:3");

    let nested = plan_new_steps(&[0, 4], None, &[255]).unwrap();
    assert_eq!(nested[0].step_id, "STEP-000000FF");
    assert_eq!(nested[0].path, "s:0.s:4.s:0");

    assert!(matches!(
        plan_new_steps(&[], None, &[]),
        Err(StoreError::InvalidInput("steps must not be empty"))
    ));
}
