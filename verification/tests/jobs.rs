use bm_storage::store::error::StoreError;
use bm_storage::store::jobs::{
    is_runner_internal_message, normalize_event_kind, normalize_event_message, normalize_event_refs,
    normalize_job_id, normalize_job_kind, normalize_job_priority, normalize_job_prompt,
    normalize_job_runner_id, normalize_job_status, normalize_job_summary, normalize_job_title,
    pick_last_meaningful_job_event, JobEventRow,
};
use bm_storage::store::fields::present_filter;
use bm_storage::store::radar::{events_for_job, jobs_radar_page, radar_row, radar_scan_limit, JobRow};

fn invalid<T: std::fmt::Debug>(r: Result<T, StoreError>) -> &'static str {
    match r {
        Err(StoreError::InvalidInput(m)) => m,
        other => panic!("expected invalid input, got {other:?}"),
    }
}

fn ev(job: &str, seq: i64, kind: &str, message: &str, refs: &[&str]) -> JobEventRow {
    JobEventRow {
        seq,
        job_id: job.to_string(),
        ts_ms: seq * 10,
        kind: kind.to_string(),
        message: message.to_string(),
        percent: None,
        refs: refs.iter().map(|r| r.to_string()).collect(),
        meta_json: None,
    }
}

fn job(id: &str, status: &str, updated: i64, claim: Option<i64>) -> JobRow {
    JobRow {
        id: id.to_string(),
        revision: 1,
        status: status.to_string(),
        title: "t".to_string(),
        kind: "k".to_string(),
        priority: "MEDIUM".to_string(),
        task_id: None,
        anchor_id: None,
        runner: None,
        claim_expires_at_ms: claim,
        summary: None,
        created_at_ms: 0,
        updated_at_ms: updated,
        completed_at_ms: None,
    }
}

#[test]
fn job_ids() {
    assert_eq!(normalize_job_id(" JOB-001 ").unwrap(), "JOB-001");
    assert_eq!(normalize_job_id("JOB-JOB-123").unwrap(), "JOB-JOB-123");
    assert_eq!(invalid(normalize_job_id("")), "job id must not be empty");
    assert_eq!(invalid(normalize_job_id("job-001")), "job id must start with JOB-");
    assert_eq!(invalid(normalize_job_id("JOB-12")), "job id must have at least 3 digits");
    assert_eq!(invalid(normalize_job_id("JOB-12a")), "job id digits must be [0-9]");
}

#[test]
fn job_status_and_priority() {
    assert_eq!(normalize_job_status(" running ").unwrap(), "RUNNING");
    assert_eq!(invalid(normalize_job_status(" ")), "job.status must not be empty");
    assert_eq!(invalid(normalize_job_status("paused")), "job.status is invalid");
    assert_eq!(normalize_job_priority("normal").unwrap(), "MEDIUM");
    assert_eq!(normalize_job_priority("High").unwrap(), "HIGH");
    assert_eq!(invalid(normalize_job_priority("")), "job.priority must not be empty");
    assert_eq!(
        invalid(normalize_job_priority("urgent")),
        "job.priority is invalid (expected LOW|MEDIUM|HIGH; synonym: normal->MEDIUM)"
    );
}

#[test]
fn job_text_fields() {
    assert_eq!(normalize_job_kind(" build ").unwrap(), "build");
    assert_eq!(invalid(normalize_job_kind("")), "job.kind must not be empty");
    assert_eq!(invalid(normalize_job_kind(&"k".repeat(65))), "job.kind is too long");
    assert_eq!(normalize_job_title(&format!(" {} ", "é".repeat(250))).unwrap().chars().count(), 200);
    assert_eq!(invalid(normalize_job_title(" ")), "job.title must not be empty");
    assert_eq!(invalid(normalize_job_prompt("")), "job.prompt must not be empty");
    assert_eq!(normalize_job_prompt(" do it ").unwrap(), "do it");
    assert_eq!(normalize_job_runner_id(" r1 ").unwrap(), "r1");
    assert_eq!(invalid(normalize_job_runner_id("")), "runner_id must not be empty");
    assert_eq!(invalid(normalize_job_runner_id(&"r".repeat(129))), "runner_id is too long");
    assert_eq!(normalize_job_summary(None).unwrap(), None);
    assert_eq!(normalize_job_summary(Some("  ".to_string())).unwrap(), None);
    assert_eq!(normalize_job_summary(Some(" s ".to_string())).unwrap(), Some("s".to_string()));
}

#[test]
fn job_event_fields() {
    assert_eq!(normalize_event_kind(" progress ").unwrap(), "progress");
    assert_eq!(invalid(normalize_event_kind("")), "job_event.kind must not be empty");
    assert_eq!(invalid(normalize_event_kind(&"x".repeat(33))), "job_event.kind is too long");
    assert_eq!(normalize_event_message(&"m".repeat(500)).unwrap().len(), 400);
    assert_eq!(invalid(normalize_event_message(" ")), "job_event.message must not be empty");
    let refs = vec![" a ".to_string(), "".to_string(), "b".to_string(), "a".to_string()];
    assert_eq!(normalize_event_refs(refs).unwrap(), vec!["a".to_string(), "b".to_string()]);
    assert_eq!(invalid(normalize_event_refs(vec!["x".to_string(); 33])), "job_event.refs exceeds max items");
    assert_eq!(invalid(normalize_event_refs(vec!["y".repeat(129)])), "job_event.refs item too long");
}

#[test]
fn runner_internal_messages() {
    assert!(is_runner_internal_message("  RUNNER: heartbeat"));
    assert!(is_runner_internal_message("runner:x"));
    assert!(!is_runner_internal_message("runner"));
    assert!(!is_runner_internal_message("the runner: x"));
}

#[test]
fn last_meaningful_event_prefers_outstanding_attention() {
    let question = vec![ev("J", 5, "question", "?", &[]), ev("J", 4, "manager", "ok", &[]), ev("J", 1, "progress", "p", &[])];
    assert_eq!(pick_last_meaningful_job_event(&question).unwrap().seq, 5);

    let answered = vec![ev("J", 6, "manager", "ok", &[]), ev("J", 5, "question", "?", &[])];
    assert_eq!(pick_last_meaningful_job_event(&answered).unwrap().seq, 6);

    let gate = vec![ev("J", 7, "heartbeat", "", &[]), ev("J", 6, "proof_gate", "g", &[]), ev("J", 5, "checkpoint", "c", &[])];
    assert_eq!(pick_last_meaningful_job_event(&gate).unwrap().seq, 6);

    let error = vec![ev("J", 8, "progress", "runner: tick", &[]), ev("J", 7, "error", "boom", &[]), ev("J", 3, "checkpoint", "c", &[])];
    assert_eq!(pick_last_meaningful_job_event(&error).unwrap().seq, 7);

    let calm = vec![ev("J", 9, "heartbeat", "", &[]), ev("J", 8, "progress", "runner: tick", &[]), ev("J", 7, "progress", "half", &[])];
    assert_eq!(pick_last_meaningful_job_event(&calm).unwrap().seq, 7);

    let only_internal = vec![ev("J", 9, "heartbeat", "", &[]), ev("J", 8, "progress", "runner: tick", &[])];
    assert_eq!(pick_last_meaningful_job_event(&only_internal).unwrap().seq, 8);

    let only_beats = vec![ev("J", 9, "heartbeat", "", &[])];
    assert_eq!(pick_last_meaningful_job_event(&only_beats).unwrap().seq, 9);
    assert!(pick_last_meaningful_job_event(&[]).is_none());
}

#[test]
fn radar_row_reads_the_newest_signals() {
    let evs = vec![
        ev("J", 9, "question", "?", &[]),
        ev("J", 8, "manager", "m", &["r"]),
        ev("J", 7, "checkpoint", "c", &[]),
        ev("J", 6, "manager", "m", &[]),
    ];
    let row = radar_row(job("J", "RUNNING", 1, None), &evs);
    assert_eq!(row.last_question_seq, Some(9));
    assert_eq!(row.last_manager_seq, Some(8));
    assert_eq!(row.last_manager_proof_seq, Some(8));
    assert_eq!(row.last_error_seq, None);
    assert_eq!(row.last_proof_gate_seq, None);
    assert_eq!(row.last_checkpoint_seq, Some(7));
    assert_eq!(row.last_checkpoint_ts_ms, Some(70));
    assert_eq!(row.last_event.map(|e| e.seq), Some(9));
}

#[test]
fn events_are_grouped_by_job() {
    let evs = vec![ev("A", 3, "x", "", &[]), ev("B", 2, "y", "", &[]), ev("A", 1, "z", "", &[])];
    let a: Vec<i64> = events_for_job(&evs, "A").iter().map(|e| e.seq).collect();
    assert_eq!(a, vec![3, 1]);
    assert!(events_for_job(&evs, "C").is_empty());
}

#[test]
fn radar_lists_attention_first() {
    let now = 1_000;
    let jobs = vec![
        job("JOB-001", "QUEUED", 50, None),
        job("JOB-002", "RUNNING", 40, Some(5_000)),
        job("JOB-003", "RUNNING", 30, Some(5_000)),
        job("JOB-004", "RUNNING", 20, None),
        job("JOB-005", "QUEUED", 60, None),
        job("JOB-006", "RUNNING", 10, Some(5_000)),
    ];
    let evs = vec![
        ev("JOB-002", 4, "error", "boom", &[]),
        ev("JOB-002", 3, "checkpoint", "c", &[]),
        ev("JOB-003", 2, "question", "?", &[]),
        ev("JOB-006", 1, "proof_gate", "g", &[]),
    ];
    let page = jobs_radar_page(jobs, &evs, 10, now);
    let order: Vec<String> = page.rows.iter().map(|r| r.job.id.clone()).collect();
    assert_eq!(order, vec!["JOB-002", "JOB-003", "JOB-006", "JOB-004", "JOB-005", "JOB-001"]);
    assert!(!page.has_more);
}

#[test]
fn radar_pages_and_scans_at_most_four_pages() {
    let jobs: Vec<JobRow> = (0..9).map(|i| job(&format!("JOB-{i:03}"), "QUEUED", 100 - i, None)).collect();
    let page = jobs_radar_page(jobs, &[], 2, 0);
    let order: Vec<String> = page.rows.iter().map(|r| r.job.id.clone()).collect();
    assert_eq!(order, vec!["JOB-000", "JOB-001"]);
    assert!(page.has_more);

    let tied: Vec<JobRow> = vec![job("JOB-010", "QUEUED", 5, None), job("JOB-002", "QUEUED", 5, None)];
    let page = jobs_radar_page(tied, &[], 0, 0);
    assert_eq!(page.rows.len(), 1);
    assert_eq!(page.rows[0].job.id, "JOB-002");
    assert!(page.has_more);
}

#[test]
fn radar_scan_limits_and_filters() {
    assert_eq!(radar_scan_limit(0), 4);
    assert_eq!(radar_scan_limit(10), 40);
    assert_eq!(radar_scan_limit(60), 200);
    assert_eq!(radar_scan_limit(1000), 200);
    assert_eq!(present_filter(Some(" x ")), Some("x".to_string()));
    assert_eq!(present_filter(Some("  ")), None);
    assert_eq!(present_filter(None), None);
}
