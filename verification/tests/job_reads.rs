use bm_storage::store::job_reads::{
    events_tail_page, jobs_list_page, plan_events_tail, plan_jobs_list, JobEventsTailRequest,
    JobsListRequest,
};
use bm_storage::store::jobs::JobEventRow;
use bm_storage::store::radar::JobRow;
use bm_storage::store::StoreError;

fn job_row(id: &str) -> JobRow {
    JobRow {
        id: id.to_string(),
        revision: 1,
        status: "QUEUED".to_string(),
        title: "t".to_string(),
        kind: "k".to_string(),
        priority: "LOW".to_string(),
        task_id: None,
        anchor_id: None,
        runner: None,
        claim_expires_at_ms: None,
        summary: None,
        created_at_ms: 1,
        updated_at_ms: 2,
        completed_at_ms: None,
    }
}

fn event(seq: i64) -> JobEventRow {
    JobEventRow {
        seq,
        job_id: "JOB-001".to_string(),
        ts_ms: seq,
        kind: "progress".to_string(),
        message: "m".to_string(),
        percent: None,
        refs: vec![],
        meta_json: None,
    }
}

fn refusal<T>(r: Result<T, StoreError>) -> &'static str {
    match r {
        Err(StoreError::InvalidInput(m)) => m,
        _ => panic!("expected an invalid-input error"),
    }
}

fn listing(status: Option<&str>, task: Option<&str>, anchor: Option<&str>, limit: usize) -> JobsListRequest {
    JobsListRequest {
        status: status.map(|s| s.to_string()),
        task_id: task.map(|s| s.to_string()),
        anchor_id: anchor.map(|s| s.to_string()),
        limit,
    }
}

#[test]
fn jobs_listing_normalizes_its_filters() {
    let f = plan_jobs_list(&listing(Some(" running "), Some("  TASK-7 "), Some("a:Core"), 0)).unwrap();
    assert_eq!(f.status.as_deref(), Some("RUNNING"));
    assert_eq!(f.task_id.as_deref(), Some("TASK-7"));
    assert_eq!(f.anchor_id.as_deref(), Some("a:core"));
    assert_eq!(f.limit, 1);
}

#[test]
fn jobs_listing_treats_blank_filters_as_absent() {
    let f = plan_jobs_list(&listing(Some("  "), Some(""), Some(" "), 1000)).unwrap();
    assert!(f.status.is_none());
    assert!(f.task_id.is_none());
    assert!(f.anchor_id.is_none());
    assert_eq!(f.limit, 200);
}

#[test]
fn jobs_listing_refuses_unknown_status_before_bad_anchor() {
    assert_eq!(
        refusal(plan_jobs_list(&listing(Some("sleeping"), None, Some("core"), 5))),
        "job.status is invalid"
    );
}

#[test]
fn jobs_page_cuts_at_limit() {
    let r = jobs_list_page(vec![job_row("JOB-003"), job_row("JOB-002"), job_row("JOB-001")], 2);
    assert!(r.has_more);
    assert_eq!(r.jobs.iter().map(|j| j.id.as_str()).collect::<Vec<_>>(), vec!["JOB-003", "JOB-002"]);
    let r = jobs_list_page(vec![job_row("JOB-001")], 2);
    assert!(!r.has_more);
    assert_eq!(r.jobs.len(), 1);
}

#[test]
fn events_tail_checks_id_and_cursor() {
    let p = plan_events_tail(&JobEventsTailRequest { id: " JOB-001 ".to_string(), after_seq: 4, limit: 0 }).unwrap();
    assert_eq!(p.id, "JOB-001");
    assert_eq!(p.after_seq, 4);
    assert_eq!(p.limit, 1);
    assert_eq!(
        refusal(plan_events_tail(&JobEventsTailRequest { id: "JOB-001".to_string(), after_seq: -1, limit: 5 })),
        "after_seq must be >= 0"
    );
    assert_eq!(
        refusal(plan_events_tail(&JobEventsTailRequest { id: "TASK-1".to_string(), after_seq: -1, limit: 5 })),
        "job id must start with JOB-"
    );
}

#[test]
fn events_tail_page_moves_the_cursor_to_the_last_kept_event() {
    let p = plan_events_tail(&JobEventsTailRequest { id: "JOB-001".to_string(), after_seq: 4, limit: 2 }).unwrap();
    let r = events_tail_page(p, vec![event(5), event(6), event(7)]);
    assert!(r.has_more);
    assert_eq!(r.events.len(), 2);
    assert_eq!(r.next_after_seq, 6);
    assert_eq!(r.after_seq, 4);
    assert_eq!(r.job_id, "JOB-001");

    let p = plan_events_tail(&JobEventsTailRequest { id: "JOB-001".to_string(), after_seq: 9, limit: 2 }).unwrap();
    let r = events_tail_page(p, vec![]);
    assert!(!r.has_more);
    assert_eq!(r.next_after_seq, 9);
}
