use bm_storage::json::{json_escape, looks_like_json_object, merge_meta_json};
use bm_storage::model::{DocEntryKind, DocumentKind, EventRow, StepRef};
use bm_storage::model::parse_event_id;
use bm_storage::steps::{
    build_step_defined_payload, build_step_done_payload, build_step_graph_meta_json,
    build_step_noted_mirror_meta_json, build_step_noted_payload, build_step_verified_payload,
    build_steps_added_payload, build_task_graph_meta_json, next_step_ordinal, step_graph_node_id,
    step_id_for_seq, step_path_of, task_graph_node_id,
};

fn step(id: &str, path: &str) -> StepRef {
    StepRef { step_id: id.to_string(), path: path.to_string() }
}

#[test]
fn json_escape_escapes_quotes_backslashes_and_controls() {
    assert_eq!(json_escape("a\"b\\c"), "a\\\"b\\\\c");
    assert_eq!(json_escape("l1\nl2\r\t"), "l1\\nl2\\r\\t");
    assert_eq!(json_escape("\u{1}x\u{7f}"), "\\u0001x\\u007f");
    assert_eq!(json_escape("plain ✓"), "plain ✓");
}

#[test]
fn json_object_shape_is_braces_after_trim() {
    assert!(looks_like_json_object("  {\"a\":1} "));
    assert!(looks_like_json_object("{}"));
    assert!(!looks_like_json_object("[1]"));
    assert!(!looks_like_json_object("{"));
    assert!(!looks_like_json_object(""));
}

#[test]
fn merge_meta_without_existing_meta() {
    assert_eq!(
        merge_meta_json(None, "feat", 12, 345),
        "{\"_merge\":{\"from\":\"feat\",\"from_seq\":12,\"from_ts_ms\":345}}"
    );
    assert_eq!(
        merge_meta_json(Some(" {} "), "f\"x", -1, 0),
        "{\"_merge\":{\"from\":\"f\\\"x\",\"from_seq\":-1,\"from_ts_ms\":0}}"
    );
}

#[test]
fn merge_meta_extends_an_object() {
    assert_eq!(
        merge_meta_json(Some("{\"a\":1}"), "b", 2, 3),
        "{\"a\":1,\"_merge\":{\"from\":\"b\",\"from_seq\":2,\"from_ts_ms\":3}}"
    );
}

#[test]
fn merge_meta_nests_an_earlier_merge() {
    assert_eq!(
        merge_meta_json(Some("{\"_merge\":{}}"), "b", 2, 3),
        "{\"_merge\":{\"from\":\"b\",\"from_seq\":2,\"from_ts_ms\":3},\"_meta\":{\"_merge\":{}}}"
    );
}

#[test]
fn merge_meta_keeps_raw_text() {
    assert_eq!(
        merge_meta_json(Some(" not json "), "b", 2, 3),
        "{\"_merge\":{\"from\":\"b\",\"from_seq\":2,\"from_ts_ms\":3},\"_meta_raw\":\"not json\"}"
    );
}

#[test]
fn document_and_entry_kinds_as_text() {
    assert_eq!(DocumentKind::Notes.as_str(), "notes");
    assert_eq!(DocumentKind::Graph.as_str(), "graph");
    assert_eq!(DocumentKind::Trace.as_str(), "trace");
    assert_eq!(DocEntryKind::Note.as_str(), "note");
    assert_eq!(DocEntryKind::Event.as_str(), "event");
}

#[test]
fn event_id_is_zero_padded_sequence() {
    let e = EventRow {
        seq: 42,
        ts_ms: 0,
        task_id: None,
        path: None,
        event_type: "x".to_string(),
        payload_json: "{}".to_string(),
    };
    assert_eq!(e.event_id(), "evt_0000000000000042");
}

#[test]
fn event_id_round_trips() {
    for seq in [0i64, 1, 42, 1 << 40, i64::MAX, -7] {
        let e = EventRow {
            seq,
            ts_ms: 0,
            task_id: None,
            path: None,
            event_type: String::new(),
            payload_json: String::new(),
        };
        assert_eq!(parse_event_id(&e.event_id()), Some(seq));
    }
    assert_eq!(parse_event_id("evt_12x"), None);
    assert_eq!(parse_event_id("ev_12"), None);
}

#[test]
fn graph_node_ids_of_tasks_and_steps() {
    assert_eq!(task_graph_node_id("TASK-001"), "task:TASK-001");
    assert_eq!(step_graph_node_id("STEP-0000000A"), "step:STEP-0000000A");
}

#[test]
fn graph_meta_of_tasks_and_steps() {
    assert_eq!(build_task_graph_meta_json("T\"1"), "{\"source\":\"tasks\",\"task_id\":\"T\\\"1\"}");
    assert_eq!(
        build_step_graph_meta_json("T1", &step("S1", "s:0")),
        "{\"source\":\"tasks\",\"task_id\":\"T1\",\"step_id\":\"S1\",\"path\":\"s:0\"}"
    );
}

#[test]
fn steps_added_payload_lists_steps() {
    let steps = vec![step("S1", "s:0"), step("S2", "s:1")];
    assert_eq!(
        build_steps_added_payload("T1", None, &steps),
        "{\"task\":\"T1\",\"parent_path\":null,\"steps\":[{\"step_id\":\"S1\",\"path\":\"s:0\"},{\"step_id\":\"S2\",\"path\":\"s:1\"}]}"
    );
    assert_eq!(
        build_steps_added_payload("T1", Some("s:0"), &[]),
        "{\"task\":\"T1\",\"parent_path\":\"s:0\",\"steps\":[]}"
    );
}

#[test]
fn step_event_payloads() {
    let s = step("S1", "s:2");
    assert_eq!(
        build_step_defined_payload("T1", &s, &["title", "tests"]),
        "{\"task\":\"T1\",\"step_id\":\"S1\",\"path\":\"s:2\",\"fields\":[\"title\",\"tests\"]}"
    );
    assert_eq!(
        build_step_noted_payload("T1", &s, 9),
        "{\"task\":\"T1\",\"step_id\":\"S1\",\"path\":\"s:2\",\"note_seq\":9}"
    );
    assert_eq!(
        build_step_noted_mirror_meta_json("T1", &s, 9, "evt_1"),
        "{\"source\":\"tasks_note\",\"task_id\":\"T1\",\"step_id\":\"S1\",\"path\":\"s:2\",\"note_seq\":9,\"event_id\":\"evt_1\"}"
    );
    assert_eq!(
        build_step_verified_payload("T1", &s, Some(true), None),
        "{\"task\":\"T1\",\"step_id\":\"S1\",\"path\":\"s:2\",\"criteria_confirmed\":true}"
    );
    assert_eq!(
        build_step_verified_payload("T1", &s, Some(false), Some(true)),
        "{\"task\":\"T1\",\"step_id\":\"S1\",\"path\":\"s:2\",\"criteria_confirmed\":false,\"tests_confirmed\":true}"
    );
    assert_eq!(build_step_done_payload("T1", &s), "{\"task\":\"T1\",\"step_id\":\"S1\",\"path\":\"s:2\"}");
}

#[test]
fn step_ids_are_uppercase_hex_of_at_least_eight_digits() {
    assert_eq!(step_id_for_seq(10), "STEP-0000000A");
    assert_eq!(step_id_for_seq(0), "STEP-00000000");
    assert_eq!(step_id_for_seq(0x1_2345_6789), "STEP-123456789");
    for seq in [1i64, 255, 4096, 1 << 33, -1] {
        assert_eq!(step_id_for_seq(seq), format!("STEP-{seq:08X}"));
    }
}

#[test]
fn step_ordinals_and_paths() {
    assert_eq!(next_step_ordinal(None), 0);
    assert_eq!(next_step_ordinal(Some(4)), 5);
    assert_eq!(step_path_of(&[0]), "s:0");
    assert_eq!(step_path_of(&[1, 0, 12]), "s:1.s:0.s:12");
    assert_eq!(step_path_of(&[]), "");
}
