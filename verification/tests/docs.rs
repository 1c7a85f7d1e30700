use bm_storage::docs::{
    check_doc_append, check_doc_diff, check_doc_target, check_entries_since, check_entry_seq,
    doc_entry_kind_of, doc_tail_page, doc_tail_window, document_kind_of,
};
use bm_storage::model::{DocEntryKind, DocEntryRow, DocumentKind};
use bm_storage::StoreError;

fn invalid<T: std::fmt::Debug>(r: Result<T, StoreError>) -> &'static str {
    match r {
        Err(StoreError::InvalidInput(m)) => m,
        other => panic!("expected invalid input, got {other:?}"),
    }
}

fn entry(seq: i64) -> DocEntryRow {
    DocEntryRow {
        seq,
        ts_ms: seq,
        branch: "main".to_string(),
        doc: "notes".to_string(),
        kind: DocEntryKind::Note,
        title: None,
        format: None,
        meta_json: None,
        content: Some(format!("n{seq}")),
        source_event_id: None,
        event_type: None,
        task_id: None,
        path: None,
        payload_json: None,
    }
}

#[test]
fn document_requests_are_checked() {
    assert_eq!(invalid(check_doc_target(" ", "notes")), "branch must not be empty");
    assert_eq!(invalid(check_doc_target("main", " ")), "doc must not be empty");
    assert!(check_doc_target("main", "notes").is_ok());
    assert_eq!(invalid(check_doc_append("main", "notes", "  ")), "content must not be empty");
    assert!(check_doc_append("main", "notes", "x").is_ok());
    assert_eq!(invalid(check_doc_diff("", "b", "d")), "from_branch must not be empty");
    assert_eq!(invalid(check_doc_diff("a", " ", "d")), "to_branch must not be empty");
    assert_eq!(invalid(check_doc_diff("a", "b", "")), "doc must not be empty");
    assert_eq!(invalid(check_entries_since("a", "d", -1)), "since_seq must be >= 0");
    assert!(check_entries_since("a", "d", 0).is_ok());
    assert_eq!(invalid(check_entry_seq(-5)), "seq must be >= 0");
}

#[test]
fn stored_kinds_are_read_back_with_fallbacks() {
    assert_eq!(doc_entry_kind_of("note"), DocEntryKind::Note);
    assert_eq!(doc_entry_kind_of("event"), DocEntryKind::Event);
    assert_eq!(doc_entry_kind_of("other"), DocEntryKind::Event);
    assert_eq!(document_kind_of("trace"), DocumentKind::Trace);
    assert_eq!(document_kind_of("graph"), DocumentKind::Graph);
    assert_eq!(document_kind_of("notes"), DocumentKind::Notes);
    assert_eq!(document_kind_of("?"), DocumentKind::Notes);
}

#[test]
fn tail_pages_come_back_oldest_first() {
    assert_eq!(doc_tail_window(None, 0), (i64::MAX, 1));
    assert_eq!(doc_tail_window(Some(40), 500), (40, 200));

    let page = doc_tail_page(vec![entry(9), entry(8), entry(7)], 2);
    assert!(page.has_more);
    assert_eq!(page.next_cursor, Some(8));
    assert_eq!(page.entries.iter().map(|e| e.seq).collect::<Vec<_>>(), vec![8, 9]);

    let last = doc_tail_page(vec![entry(3), entry(2)], 2);
    assert!(!last.has_more);
    assert_eq!(last.next_cursor, None);
    assert_eq!(last.entries.iter().map(|e| e.seq).collect::<Vec<_>>(), vec![2, 3]);
}
