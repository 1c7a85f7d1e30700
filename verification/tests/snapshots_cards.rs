use bm_storage::error::StoreError;
use bm_storage::model::ThinkCardInput;
use bm_storage::snapshot::{
    read_step_patch, snapshot_optional_i64, snapshot_optional_string, snapshot_patch_string,
    snapshot_required_bool, snapshot_required_str, snapshot_required_vec, step_patch_update,
    CompletedAt, Snapshot, SnapshotField, SnapshotValue, StepCurrent,
};
use bm_storage::think::{
    check_think_card, think_card_edge_key, think_card_node_key, think_card_source_event_id,
    trace_entry_needed,
};

fn invalid<T: std::fmt::Debug>(r: Result<T, StoreError>) -> &'static str {
    match r {
        Err(StoreError::InvalidInput(m)) => m,
        other => panic!("expected invalid input, got {other:?}"),
    }
}

fn text(s: &str) -> SnapshotValue {
    SnapshotValue::Str(s.to_string())
}

fn json_of(v: &SnapshotValue) -> String {
    match v {
        SnapshotValue::Null => "null".to_string(),
        SnapshotValue::Bool(b) => b.to_string(),
        SnapshotValue::Int(n) => n.to_string(),
        SnapshotValue::OtherNumber => "1.5".to_string(),
        SnapshotValue::Str(s) => serde_json::to_string(s).unwrap(),
        SnapshotValue::Array(items) => serde_json::to_string(items).unwrap(),
        SnapshotValue::Object => "{}".to_string(),
    }
}

fn snap(fields: Vec<(&str, SnapshotValue)>) -> Snapshot {
    Snapshot {
        fields: fields
            .into_iter()
            .map(|(k, v)| SnapshotField { name: k.to_string(), json: json_of(&v), value: v })
            .collect(),
    }
}

fn step_patch_fields() -> Vec<(&'static str, SnapshotValue)> {
    vec![
        ("task", text("T1")),
        ("step_id", text("S1")),
        ("path", text("s:0")),
        ("title", text("Write it")),
        ("next_action", SnapshotValue::Null),
        ("proof_tests_mode", SnapshotValue::Int(2)),
        ("proof_docs_mode", SnapshotValue::Null),
        ("success_criteria", SnapshotValue::Array(vec![Some("c1".to_string())])),
        ("tests", SnapshotValue::Array(vec![])),
        ("blockers", SnapshotValue::Array(vec![Some("b".to_string())])),
        ("criteria_confirmed", SnapshotValue::Bool(true)),
        ("tests_confirmed", SnapshotValue::Bool(false)),
        ("security_confirmed", SnapshotValue::Bool(false)),
        ("perf_confirmed", SnapshotValue::Bool(false)),
        ("docs_confirmed", SnapshotValue::Bool(true)),
        ("completed", SnapshotValue::Bool(true)),
        ("blocked", SnapshotValue::Bool(false)),
        ("block_reason", text("waiting")),
    ]
}

#[test]
fn snapshot_fields_by_kind() {
    let s = snap(vec![
        ("a", text("x")),
        ("b", SnapshotValue::Bool(true)),
        ("n", SnapshotValue::Int(-3)),
        ("f", SnapshotValue::OtherNumber),
        ("z", SnapshotValue::Null),
        ("v", SnapshotValue::Array(vec![Some("p".to_string()), Some("q".to_string())])),
        ("w", SnapshotValue::Array(vec![Some("p".to_string()), None])),
        ("o", SnapshotValue::Object),
        ("a", text("shadowed")),
    ]);
    assert_eq!(snapshot_required_str(&s, "a").unwrap(), "x");
    assert_eq!(invalid(snapshot_required_str(&s, "b")), "snapshot missing string field");
    assert_eq!(invalid(snapshot_required_str(&s, "missing")), "snapshot missing string field");
    assert_eq!(snapshot_required_bool(&s, "b").unwrap(), true);
    assert_eq!(invalid(snapshot_required_bool(&s, "a")), "snapshot missing boolean field");
    assert_eq!(snapshot_optional_string(&s, "z").unwrap(), None);
    assert_eq!(snapshot_optional_string(&s, "missing").unwrap(), None);
    assert_eq!(invalid(snapshot_optional_string(&s, "n")), "snapshot invalid string field");
    assert_eq!(snapshot_patch_string(&s, "missing").unwrap(), None);
    assert_eq!(snapshot_patch_string(&s, "z").unwrap(), Some(None));
    assert_eq!(snapshot_patch_string(&s, "a").unwrap(), Some(Some("x".to_string())));
    assert_eq!(snapshot_optional_i64(&s, "n").unwrap(), Some(-3));
    assert_eq!(snapshot_optional_i64(&s, "z").unwrap(), None);
    assert_eq!(invalid(snapshot_optional_i64(&s, "f")), "snapshot invalid integer field");
    assert_eq!(snapshot_required_vec(&s, "v").unwrap(), vec!["p".to_string(), "q".to_string()]);
    assert_eq!(invalid(snapshot_required_vec(&s, "w")), "snapshot array must be strings");
    assert_eq!(invalid(snapshot_required_vec(&s, "o")), "snapshot missing array field");
}

#[test]
fn step_patch_is_read_and_applied_over_current_fields() {
    let p = read_step_patch(&snap(step_patch_fields())).unwrap();
    assert_eq!((p.task_id.as_str(), p.step_id.as_str(), p.path.as_str()), ("T1", "S1", "s:0"));
    assert_eq!(p.next_action, Some(None));
    assert_eq!(p.stop_criteria, None);
    assert_eq!(p.success_criteria, vec!["c1".to_string()]);
    let current = StepCurrent {
        next_action: Some("old".to_string()),
        stop_criteria: Some("stop".to_string()),
        proof_tests_mode: 0,
        proof_security_mode: 1,
        proof_perf_mode: 1,
        proof_docs_mode: 1,
    };
    let u = step_patch_update(p, current);
    assert_eq!(u.title, "Write it");
    assert_eq!(u.next_action, None);
    assert_eq!(u.stop_criteria.as_deref(), Some("stop"));
    assert_eq!((u.proof_tests_mode, u.proof_security_mode, u.proof_docs_mode), (2, 1, 1));
    assert_eq!((u.criteria_confirmed, u.tests_confirmed, u.docs_confirmed, u.completed), (1, 0, 1, 1));
    assert!(matches!(u.completed_at, CompletedAt::Keep));
    assert_eq!(u.blocked, 0);
    assert_eq!(u.block_reason, None);
}

#[test]
fn step_patch_completion_and_block_reason() {
    let mut fields = step_patch_fields();
    fields.push(("completed_at_ms", SnapshotValue::Int(77)));
    fields.retain(|(k, _)| *k != "blocked");
    fields.push(("blocked", SnapshotValue::Bool(true)));
    let p = read_step_patch(&snap(fields)).unwrap();
    let current = StepCurrent {
        next_action: None,
        stop_criteria: None,
        proof_tests_mode: 0,
        proof_security_mode: 0,
        proof_perf_mode: 0,
        proof_docs_mode: 0,
    };
    let u = step_patch_update(p, current);
    assert!(matches!(u.completed_at, CompletedAt::SetTo(77)));
    assert_eq!(u.block_reason.as_deref(), Some("waiting"));

    let mut open = step_patch_fields();
    open.retain(|(k, _)| *k != "completed");
    open.push(("completed", SnapshotValue::Bool(false)));
    let p = read_step_patch(&snap(open)).unwrap();
    let current = StepCurrent {
        next_action: None,
        stop_criteria: None,
        proof_tests_mode: 0,
        proof_security_mode: 0,
        proof_perf_mode: 0,
        proof_docs_mode: 0,
    };
    assert!(matches!(step_patch_update(p, current).completed_at, CompletedAt::Clear));
}

#[test]
fn step_patch_reports_the_first_bad_field() {
    let mut fields = step_patch_fields();
    fields.retain(|(k, _)| *k != "title");
    assert_eq!(invalid(read_step_patch(&snap(fields))), "snapshot missing string field");
    let mut fields = step_patch_fields();
    fields.push(("stop_criteria", SnapshotValue::Int(1)));
    assert_eq!(invalid(read_step_patch(&snap(fields))), "snapshot invalid string field");
    let mut fields = step_patch_fields();
    fields.retain(|(k, _)| *k != "tests");
    assert_eq!(invalid(read_step_patch(&snap(fields))), "snapshot missing array field");
    let mut fields = step_patch_fields();
    fields.retain(|(k, _)| *k != "docs_confirmed");
    assert_eq!(invalid(read_step_patch(&snap(fields))), "snapshot missing boolean field");
}

fn card(id: &str, kind: &str, title: Option<&str>, text: Option<&str>) -> ThinkCardInput {
    ThinkCardInput {
        card_id: id.to_string(),
        card_type: kind.to_string(),
        title: title.map(|t| t.to_string()),
        text: text.map(|t| t.to_string()),
        status: None,
        tags: vec![],
        meta_json: None,
        content: String::new(),
        payload_json: "{}".to_string(),
    }
}

#[test]
fn think_card_inputs_are_checked_in_order() {
    let ok = card("CARD-1", "decision", Some("t"), None);
    assert!(check_think_card("main", "trace", "graph", &ok).is_ok());
    assert_eq!(invalid(check_think_card(" ", "trace", "graph", &ok)), "branch must not be empty");
    assert_eq!(invalid(check_think_card("main", "", "graph", &ok)), "trace_doc must not be empty");
    assert_eq!(invalid(check_think_card("main", "trace", "\n", &ok)), "graph_doc must not be empty");
    assert_eq!(invalid(check_think_card("main", "trace", "graph", &card(" ", "x", Some("t"), None))), "card.id must not be empty");
    assert_eq!(invalid(check_think_card("main", "trace", "graph", &card("C", "", Some("t"), None))), "card.type must not be empty");
    assert_eq!(
        invalid(check_think_card("main", "trace", "graph", &card("C", "note", Some("  "), None))),
        "card must have at least one of title or text"
    );
    assert!(check_think_card("main", "trace", "graph", &card("C", "note", None, Some("body"))).is_ok());
}

#[test]
fn think_card_trace_entry_is_written_once() {
    assert_eq!(trace_entry_needed(&None, "{}").unwrap(), true);
    assert_eq!(trace_entry_needed(&Some(Some("{}".to_string())), "{}").unwrap(), false);
    assert_eq!(
        invalid(trace_entry_needed(&Some(Some("{\"a\":1}".to_string())), "{}")),
        "card_id already exists with a different payload"
    );
    assert_eq!(invalid(trace_entry_needed(&Some(None), "{}")), "card_id already exists but stored payload is missing");
}

#[test]
fn think_card_keys() {
    assert_eq!(think_card_source_event_id("CARD-1"), "think_card:CARD-1");
    assert_eq!(think_card_node_key("CARD-1"), "think_card:CARD-1:node");
    assert_eq!(think_card_edge_key("CARD-1", "supports", "CARD-2"), "think_card:CARD-1:edge:supports:CARD-2");
}

#[test]
fn legacy_error_messages() {
    assert_eq!(StoreError::InvalidInput("x").message(), "invalid input: x");
    assert_eq!(StoreError::RevisionMismatch { expected: 3, actual: -1 }.message(), "revision mismatch (expected=3, actual=-1)");
    assert_eq!(StoreError::UnknownConflict.message(), "unknown conflict");
    assert_eq!(StoreError::ConflictAlreadyResolved.message(), "conflict already resolved");
    assert_eq!(StoreError::MergeNotSupported.message(), "merge not supported");
    assert_eq!(StoreError::StepNotFound.message(), "step not found");
    assert_eq!(StoreError::BranchCycle.message(), "branch base cycle");
    assert_eq!(StoreError::BranchDepthExceeded.message(), "branch base depth exceeded");
    assert_eq!(
        StoreError::CheckpointsNotConfirmed { criteria: true, tests: false }.message(),
        "checkpoints not confirmed (criteria=true, tests=false)"
    );
    assert_eq!(StoreError::UnknownId.message(), "unknown id");
    assert_eq!(StoreError::UnknownBranch.message(), "unknown branch");
    assert_eq!(StoreError::BranchAlreadyExists.message(), "branch already exists");
    let io = StoreError::Io(std::io::Error::new(std::io::ErrorKind::Other, "gone"));
    assert_eq!(io.message(), "io: gone");
}
