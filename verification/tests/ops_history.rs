use bm_storage::ops_history::{
    applied_event_type, applied_row, parse_snapshot_from_row, read_step_block, read_step_progress, read_task_detail,
    read_task_node, restored_block_reason, restored_completed_at, snapshot_intent,
    snapshot_text_for, sought_undone, DetailKind, OpsHistoryRow, SnapshotIntent,
};
use bm_storage::snapshot::{snapshot_from_text, Snapshot, SnapshotField, SnapshotValue};
use bm_storage::StoreError;

fn invalid<T: std::fmt::Debug>(r: Result<T, StoreError>) -> &'static str {
    match r {
        Err(StoreError::InvalidInput(m)) => m,
        other => panic!("expected invalid input, got {other:?}"),
    }
}

fn text(s: &str) -> SnapshotValue {
    SnapshotValue::Str(s.to_string())
}

fn list(items: &[&str]) -> SnapshotValue {
    SnapshotValue::Array(items.iter().map(|s| Some(s.to_string())).collect())
}

fn field(name: &str, value: SnapshotValue, json: &str) -> SnapshotField {
    SnapshotField { name: name.to_string(), value, json: json.to_string() }
}

fn snap(fields: Vec<(&str, SnapshotValue)>) -> Snapshot {
    Snapshot { fields: fields.into_iter().map(|(k, v)| field(k, v, "")).collect() }
}

fn row(undone: bool) -> OpsHistoryRow {
    OpsHistoryRow {
        seq: 7,
        ts_ms: 1,
        task_id: Some("TASK-1".to_string()),
        path: None,
        intent: "step_block_set".to_string(),
        payload_json: "{}".to_string(),
        before_json: Some("{\"before\":1}".to_string()),
        after_json: None,
        undoable: true,
        undone,
    }
}

#[test]
fn undo_and_redo_take_turns() {
    assert!(!sought_undone(true));
    assert!(sought_undone(false));
    let r = row(false);
    assert_eq!(snapshot_text_for(&r, true).unwrap(), "{\"before\":1}");
    assert_eq!(invalid(snapshot_text_for(&r, false)), "snapshot missing");
    let undone = applied_row(r, true);
    assert!(undone.undone);
    assert_eq!(undone.undone, sought_undone(false));
    assert_eq!(applied_event_type(true), "undo_applied");
    assert_eq!(applied_event_type(false), "redo_applied");
}

#[test]
fn intents_are_dispatched() {
    assert_eq!(snapshot_intent("task_detail_patch").unwrap(), SnapshotIntent::TaskDetailPatch);
    assert_eq!(snapshot_intent("step_patch").unwrap(), SnapshotIntent::StepPatch);
    assert_eq!(snapshot_intent("step_progress").unwrap(), SnapshotIntent::StepProgress);
    assert_eq!(snapshot_intent("step_block_set").unwrap(), SnapshotIntent::StepBlockSet);
    assert_eq!(snapshot_intent("task_node_patch").unwrap(), SnapshotIntent::TaskNodePatch);
    assert_eq!(invalid(snapshot_intent("note_add")), "undo not supported for intent");
}

#[test]
fn step_block_snapshot_keeps_reason_only_while_blocked() {
    let blocked = snap(vec![
        ("task", text("TASK-1")),
        ("step_id", text("STEP-1")),
        ("path", text("s:0")),
        ("blocked", SnapshotValue::Bool(true)),
        ("block_reason", text("waiting on review")),
    ]);
    let p = read_step_block(&blocked).unwrap();
    assert_eq!(restored_block_reason(&p).as_deref(), Some("waiting on review"));

    let open = snap(vec![
        ("task", text("TASK-1")),
        ("step_id", text("STEP-1")),
        ("path", text("s:0")),
        ("blocked", SnapshotValue::Bool(false)),
        ("block_reason", text("stale")),
    ]);
    let p = read_step_block(&open).unwrap();
    assert_eq!(restored_block_reason(&p), None);

    let broken = snap(vec![("task", text("TASK-1")), ("step_id", text("STEP-1")), ("path", text("s:0"))]);
    assert_eq!(invalid(read_step_block(&broken)), "snapshot missing boolean field");
}

#[test]
fn step_progress_snapshot_restores_completion_time() {
    let done = snap(vec![
        ("task", text("TASK-1")),
        ("step_id", text("STEP-1")),
        ("path", text("s:0")),
        ("completed", SnapshotValue::Bool(true)),
    ]);
    let p = read_step_progress(&done).unwrap();
    assert_eq!(restored_completed_at(&p, 500), Some(500));

    let timed = snap(vec![
        ("task", text("TASK-1")),
        ("step_id", text("STEP-1")),
        ("path", text("s:0")),
        ("completed", SnapshotValue::Bool(true)),
        ("completed_at_ms", SnapshotValue::Int(42)),
    ]);
    assert_eq!(restored_completed_at(&read_step_progress(&timed).unwrap(), 500), Some(42));

    let open = snap(vec![
        ("task", text("TASK-1")),
        ("step_id", text("STEP-1")),
        ("path", text("s:0")),
        ("completed", SnapshotValue::Bool(false)),
        ("completed_at_ms", SnapshotValue::Int(42)),
    ]);
    assert_eq!(restored_completed_at(&read_step_progress(&open).unwrap(), 500), None);

    let bad = snap(vec![
        ("task", text("TASK-1")),
        ("step_id", text("STEP-1")),
        ("path", text("s:0")),
        ("completed", SnapshotValue::Bool(true)),
        ("completed_at_ms", text("soon")),
    ]);
    assert_eq!(invalid(read_step_progress(&bad)), "snapshot invalid integer field");
}

#[test]
fn task_node_snapshot_is_read_in_full() {
    let s = snap(vec![
        ("task", text("TASK-1")),
        ("node_id", text("N1")),
        ("title", text("Node")),
        ("status", text("open")),
        ("status_manual", SnapshotValue::Bool(true)),
        ("priority", text("high")),
        ("blocked", SnapshotValue::Bool(false)),
        ("description", SnapshotValue::Null),
        ("context", text("ctx")),
        ("blockers", list(&[])),
        ("dependencies", list(&["N0"])),
        ("next_steps", list(&["a", "b"])),
        ("problems", list(&[])),
        ("risks", list(&["r"])),
        ("success_criteria", list(&["ok"])),
    ]);
    let p = read_task_node(&s).unwrap();
    assert_eq!(p.node_id, "N1");
    assert!(p.status_manual);
    assert_eq!(p.description, None);
    assert_eq!(p.context.as_deref(), Some("ctx"));
    assert_eq!(p.next_steps, vec!["a".to_string(), "b".to_string()]);
    assert_eq!(p.success_criteria, vec!["ok".to_string()]);

    let mut missing = s;
    missing.fields.retain(|f| f.name != "risks");
    assert_eq!(invalid(read_task_node(&missing)), "snapshot missing array field");
}

#[test]
fn task_detail_snapshot_keeps_contract_data_as_json() {
    let mut fields = vec![
        field("kind", text("plan"), "\"plan\""),
        field("task", text("PLAN-1"), "\"PLAN-1\""),
        field("title", text("Plan"), "\"Plan\""),
        field("priority", text("MEDIUM"), "\"MEDIUM\""),
        field("contract_data", SnapshotValue::Object, "{\"k\":1}"),
        field("tags", list(&["x"]), "[\"x\"]"),
        field("depends_on", list(&[]), "[]"),
    ];
    let p = read_task_detail(&Snapshot { fields: fields.drain(..).collect() }).unwrap();
    assert_eq!(p.kind, DetailKind::Plan);
    assert_eq!(p.task_id, "PLAN-1");
    assert_eq!(p.contract_json.as_deref(), Some("{\"k\":1}"));
    assert_eq!(p.description, None);
    assert_eq!(p.tags, vec!["x".to_string()]);

    let null_contract = Snapshot {
        fields: vec![
            field("kind", text("task"), "\"task\""),
            field("task", text("TASK-1"), "\"TASK-1\""),
            field("title", text("Task"), "\"Task\""),
            field("priority", text("LOW"), "\"LOW\""),
            field("contract_data", SnapshotValue::Null, "null"),
            field("domain", text("core"), "\"core\""),
            field("tags", list(&[]), "[]"),
            field("depends_on", list(&["TASK-0"]), "[\"TASK-0\"]"),
        ],
    };
    let p = read_task_detail(&null_contract).unwrap();
    assert_eq!(p.kind, DetailKind::Task);
    assert_eq!(p.contract_json, None);
    assert_eq!(p.domain.as_deref(), Some("core"));

    let wrong_kind = snap(vec![("kind", text("epic")), ("task", text("X"))]);
    assert_eq!(invalid(read_task_detail(&wrong_kind)), "snapshot kind invalid");
}

#[test]
fn stored_snapshot_text_is_parsed_into_fields() {
    let mut r = row(false);
    r.before_json = Some(
        "{\"title\":\"Fix\",\"blocked\":true,\"n\":7,\"x\":1.5,\"tags\":[\"a\",2],\"meta\":{\"k\":null},\"gone\":null}"
            .to_string(),
    );
    let s = parse_snapshot_from_row(&r, true).unwrap();
    let names: Vec<&str> = s.fields.iter().map(|f| f.name.as_str()).collect();
    assert_eq!(names, vec!["blocked", "gone", "meta", "n", "tags", "title", "x"]);
    assert!(matches!(s.fields[0].value, SnapshotValue::Bool(true)));
    assert!(matches!(s.fields[1].value, SnapshotValue::Null));
    assert!(matches!(s.fields[2].value, SnapshotValue::Object));
    assert_eq!(s.fields[2].json, "{\"k\":null}");
    assert!(matches!(s.fields[3].value, SnapshotValue::Int(7)));
    match &s.fields[4].value {
        SnapshotValue::Array(items) => assert_eq!(items, &vec![Some("a".to_string()), None]),
        _ => panic!("expected an array"),
    }
    match &s.fields[5].value {
        SnapshotValue::Str(t) => assert_eq!(t, "Fix"),
        _ => panic!("expected a string"),
    }
    assert!(matches!(s.fields[6].value, SnapshotValue::OtherNumber));
    assert_eq!(s.fields[6].json, "1.5");
}

#[test]
fn snapshot_parse_refusals() {
    let mut r = row(false);
    r.before_json = None;
    r.after_json = Some("{not json".to_string());
    assert_eq!(invalid(parse_snapshot_from_row(&r, true)), "snapshot missing");
    assert_eq!(invalid(parse_snapshot_from_row(&r, false)), "snapshot invalid");
}

#[test]
fn non_object_snapshot_has_no_fields() {
    let s = snapshot_from_text("[1,2]").unwrap();
    assert!(s.fields.is_empty());
    assert!(snapshot_from_text("").is_none());
}
