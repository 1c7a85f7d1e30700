use bm_storage::model::{DocEntryKind, DocEntryRow};
use bm_storage::notes_merge::{note_merge_key, note_merge_plan, tally_notes_merge};

fn entry(seq: i64, kind: DocEntryKind, content: Option<&str>) -> DocEntryRow {
    DocEntryRow {
        seq,
        ts_ms: 1,
        branch: "feature".to_string(),
        doc: "notes".to_string(),
        kind,
        title: None,
        format: None,
        meta_json: None,
        content: content.map(|s| s.to_string()),
        source_event_id: None,
        event_type: None,
        task_id: None,
        path: None,
        payload_json: None,
    }
}

#[test]
fn merge_key_names_branch_and_seq() {
    assert_eq!(note_merge_key("feature/x", 42), "merge:feature/x:42");
    assert_eq!(note_merge_key("b", -3), "merge:b:-3");
}

#[test]
fn only_notes_with_content_are_merged() {
    let entries = vec![
        entry(9, DocEntryKind::Note, Some("hello")),
        entry(8, DocEntryKind::Event, Some("event text")),
        entry(7, DocEntryKind::Note, None),
        entry(6, DocEntryKind::Note, Some("")),
    ];
    let plan = note_merge_plan(&entries, "feature");
    assert_eq!(
        plan,
        vec![Some("merge:feature:9".to_string()), None, None, Some("merge:feature:6".to_string())]
    );
}

#[test]
fn tally_counts_every_entry_once() {
    let plan = vec![Some("a".to_string()), None, Some("b".to_string()), Some("c".to_string())];
    let landed = vec![true, true, false, true];
    let r = tally_notes_merge(&plan, &landed, Some(6), true);
    assert_eq!(r.merged, 2);
    assert_eq!(r.skipped, 2);
    assert_eq!(r.count, 4);
    assert_eq!(r.next_cursor, Some(6));
    assert!(r.has_more);

    let empty = tally_notes_merge(&[], &[], None, false);
    assert_eq!((empty.merged, empty.skipped, empty.count), (0, 0, 0));
}
