use bm_storage::store::jobs::JobEventRow;
use bm_storage::store::radar::JobRow;
use bm_storage::store::job_lifecycle::{
    claim_event_kind, claim_event_meta_json, clamp_claim_ttl, lease_expiry, plan_job_cancel,
    plan_job_claim, plan_job_complete, plan_job_create, plan_job_message, plan_job_report,
    plan_job_requeue, plan_job_open, job_open_result, JobOpenRequest, ClaimKind, prepare_job_event, job_event_write, EventWrite, JobCancelRequest, JobClaimRequest, JobCompleteRequest,
    JobCreateRequest, JobError, JobLease, JobMessageRequest, JobReportRequest, JobRequeueRequest,
};

fn lease(revision: i64, status: &str, runner: Option<&str>, expires: Option<i64>) -> JobLease {
    JobLease {
        revision,
        status: status.to_string(),
        runner: runner.map(|s| s.to_string()),
        claim_expires_at_ms: expires,
    }
}

fn claim(id: &str, runner: &str, ttl: u64, allow_stale: bool) -> JobClaimRequest {
    JobClaimRequest {
        id: id.to_string(),
        runner_id: runner.to_string(),
        lease_ttl_ms: ttl,
        allow_stale,
    }
}

fn report(id: &str, runner: &str, claim_revision: i64) -> JobReportRequest {
    JobReportRequest {
        id: id.to_string(),
        runner_id: runner.to_string(),
        claim_revision,
        lease_ttl_ms: 60_000,
        kind: " progress ".to_string(),
        message: "  half way ".to_string(),
        percent: Some(50),
        refs: vec!["CARD-1".to_string(), " CARD-1 ".to_string()],
        meta_json: None,
    }
}

fn complete(id: &str, runner: &str, claim_revision: i64, status: &str) -> JobCompleteRequest {
    JobCompleteRequest {
        id: id.to_string(),
        runner_id: runner.to_string(),
        claim_revision,
        status: status.to_string(),
        summary: Some("  all good  ".to_string()),
        refs: vec![],
        meta_json: None,
    }
}

fn cancel(id: &str, reason: Option<&str>, force: bool, expected: Option<i64>) -> JobCancelRequest {
    JobCancelRequest {
        id: id.to_string(),
        reason: reason.map(|s| s.to_string()),
        refs: vec![],
        meta_json: None,
        force_running: force,
        expected_revision: expected,
    }
}

#[test]
fn claim_ttl_is_clamped_and_expiry_saturates() {
    assert_eq!(clamp_claim_ttl(10), 1_000);
    assert_eq!(clamp_claim_ttl(60_000), 60_000);
    assert_eq!(clamp_claim_ttl(u64::MAX), 300_000);
    assert_eq!(lease_expiry(1_000, 60_000), 61_000);
    assert_eq!(lease_expiry(i64::MAX - 5, 1_000), i64::MAX);
    assert_eq!(lease_expiry(-10, 5), -5);
}

#[test]
fn claim_takes_a_queued_job() {
    let plan = plan_job_claim(
        &claim(" JOB-001 ", " runner-a ", 10, false),
        5_000,
        Some(lease(3, "QUEUED", None, None)),
    )
    .unwrap();
    assert_eq!(plan.job_id, "JOB-001");
    assert_eq!(plan.runner_id, "runner-a");
    assert_eq!(plan.kind, ClaimKind::Claimed);
    assert_eq!(plan.revision, 3);
    assert_eq!(plan.next_revision, 4);
    assert_eq!(plan.claim_expires_at_ms, 6_000);
    assert_eq!(plan.previous_runner_id, None);
    assert_eq!(claim_event_kind(plan.kind), "claimed");
    assert_eq!(claim_event_meta_json(&plan), None);
}

#[test]
fn claim_reclaims_only_an_expired_lease() {
    let live = plan_job_claim(
        &claim("JOB-001", "runner-b", 60_000, true),
        5_000,
        Some(lease(4, "RUNNING", Some("runner-a"), Some(9_000))),
    );
    match live {
        Err(JobError::JobNotClaimable { job_id, status }) => {
            assert_eq!(job_id, "JOB-001");
            assert_eq!(status, "RUNNING");
        }
        other => panic!("unexpected {other:?}"),
    }

    let not_stale = plan_job_claim(
        &claim("JOB-001", "runner-b", 60_000, false),
        10_000,
        Some(lease(4, "RUNNING", Some("runner-a"), Some(9_000))),
    );
    assert!(matches!(not_stale, Err(JobError::JobNotClaimable { .. })));

    let plan = plan_job_claim(
        &claim("JOB-001", "runner-b", 60_000, true),
        10_000,
        Some(lease(4, "RUNNING", Some("  runner-a "), Some(9_000))),
    )
    .unwrap();
    assert_eq!(plan.kind, ClaimKind::Reclaimed);
    assert_eq!(plan.next_revision, 5);
    assert_eq!(plan.claim_expires_at_ms, 70_000);
    assert_eq!(plan.previous_runner_id.as_deref(), Some("runner-a"));
    assert_eq!(claim_event_kind(plan.kind), "reclaimed");
    assert_eq!(
        claim_event_meta_json(&plan).as_deref(),
        Some(r#"{"previous_runner_id":"runner-a","reason":"ttl_expired"}"#)
    );

    let no_expiry = plan_job_claim(
        &claim("JOB-001", "runner-b", 60_000, true),
        10_000,
        Some(lease(4, "RUNNING", None, None)),
    )
    .unwrap();
    assert_eq!(no_expiry.previous_runner_id, None);
    assert_eq!(
        claim_event_meta_json(&no_expiry).as_deref(),
        Some(r#"{"reason":"ttl_expired"}"#)
    );
}

#[test]
fn claim_refuses_bad_input_and_unknown_jobs() {
    let bad = plan_job_claim(&claim("TASK-1", "r", 1, false), 0, None);
    assert!(matches!(bad, Err(JobError::InvalidInput("job id must start with JOB-"))));
    let no_runner = plan_job_claim(&claim("JOB-001", "  ", 1, false), 0, None);
    assert!(matches!(no_runner, Err(JobError::InvalidInput("runner_id must not be empty"))));
    let unknown = plan_job_claim(&claim("JOB-001", "r", 1, false), 0, None);
    assert!(matches!(unknown, Err(JobError::UnknownId)));
    let done = plan_job_claim(&claim("JOB-001", "r", 1, true), 0, Some(lease(2, "DONE", None, None)));
    assert!(matches!(done, Err(JobError::JobNotClaimable { .. })));
}

#[test]
fn report_renews_the_lease_of_its_runner() {
    let plan = plan_job_report(
        report("JOB-002", "runner-a", 4),
        1_000,
        Some(lease(4, "RUNNING", Some("runner-a"), Some(2_000))),
    )
    .unwrap();
    assert_eq!(plan.job_id, "JOB-002");
    assert_eq!(plan.claim_revision, 4);
    assert_eq!(plan.claim_expires_at_ms, 61_000);
    assert_eq!(plan.kind, "progress");
    assert_eq!(plan.message, "half way");
    assert_eq!(plan.refs, vec!["CARD-1".to_string()]);
    assert_eq!(plan.percent, Some(50));
}

#[test]
fn report_refuses_other_runners_and_revisions() {
    let other = plan_job_report(
        report("JOB-002", "runner-b", 4),
        1_000,
        Some(lease(4, "RUNNING", Some("runner-a"), None)),
    );
    match other {
        Err(JobError::JobClaimMismatch {
            job_id,
            expected_runner_id,
            actual_runner_id,
            expected_revision,
            actual_revision,
        }) => {
            assert_eq!(job_id, "JOB-002");
            assert_eq!(expected_runner_id.as_deref(), Some("runner-a"));
            assert_eq!(actual_runner_id, "runner-b");
            assert_eq!(expected_revision, 4);
            assert_eq!(actual_revision, 4);
        }
        other => panic!("unexpected {other:?}"),
    }
    let stale = plan_job_report(
        report("JOB-002", "runner-a", 3),
        1_000,
        Some(lease(4, "RUNNING", Some("runner-a"), None)),
    );
    assert!(matches!(stale, Err(JobError::JobClaimMismatch { .. })));
    let negative = plan_job_report(report("JOB-002", "runner-a", -1), 1_000, None);
    assert!(matches!(negative, Err(JobError::InvalidInput("claim_revision must be >= 0"))));
    let queued = plan_job_report(
        report("JOB-002", "runner-a", 4),
        1_000,
        Some(lease(4, "QUEUED", None, None)),
    );
    assert!(matches!(queued, Err(JobError::JobNotRunning { .. })));
}

#[test]
fn complete_finishes_a_running_job() {
    let plan = plan_job_complete(
        complete("JOB-003", "r", 7, " failed "),
        Some(lease(7, "RUNNING", Some("r"), Some(100))),
    )
    .unwrap();
    assert_eq!(plan.status, "FAILED");
    assert_eq!(plan.next_revision, 8);
    assert_eq!(plan.summary.as_deref(), Some("all good"));
    assert_eq!(plan.event_kind, "failed");
    assert_eq!(plan.event_message, "failed");

    let done = plan_job_complete(
        complete("JOB-003", "r", 7, "done"),
        Some(lease(7, "RUNNING", Some("r"), None)),
    )
    .unwrap();
    assert_eq!(done.event_kind, "completed");
    assert_eq!(done.event_message, "done");
}

#[test]
fn complete_refuses_non_terminal_status_and_finished_jobs() {
    let queued = plan_job_complete(complete("JOB-003", "r", 7, "queued"), None);
    assert!(matches!(
        queued,
        Err(JobError::InvalidInput("job_complete status must be terminal"))
    ));
    let bogus = plan_job_complete(complete("JOB-003", "r", 7, "later"), None);
    assert!(matches!(bogus, Err(JobError::InvalidInput("job.status is invalid"))));
    let finished = plan_job_complete(
        complete("JOB-003", "r", 7, "DONE"),
        Some(lease(7, "CANCELED", Some("r"), None)),
    );
    assert!(matches!(finished, Err(JobError::JobAlreadyTerminal { .. })));
    let waiting = plan_job_complete(
        complete("JOB-003", "r", 7, "DONE"),
        Some(lease(7, "QUEUED", None, None)),
    );
    assert!(matches!(waiting, Err(JobError::JobNotRunning { .. })));
}

#[test]
fn cancel_needs_force_for_a_running_job() {
    let refused = plan_job_cancel(
        cancel("JOB-004", None, false, None),
        Some(lease(2, "RUNNING", Some("r"), None)),
    );
    assert!(matches!(refused, Err(JobError::JobNotCancelable { .. })));

    let forced = plan_job_cancel(
        cancel("JOB-004", Some("  out of budget "), true, Some(2)),
        Some(lease(2, "RUNNING", Some("r"), None)),
    )
    .unwrap();
    assert_eq!(forced.next_revision, 3);
    assert!(!forced.drops_runner);
    assert!(forced.releases_lease);
    assert_eq!(forced.message, "canceled: out of budget");
    assert_eq!(forced.summary.as_deref(), Some("out of budget"));

    let queued = plan_job_cancel(cancel("JOB-004", None, false, None), Some(lease(0, "QUEUED", None, None)))
        .unwrap();
    assert!(queued.drops_runner);
    assert!(!queued.releases_lease);
    assert_eq!(queued.message, "canceled");
    assert_eq!(queued.summary, None);

    let long_reason = "x".repeat(500);
    let long = plan_job_cancel(
        cancel("JOB-004", Some(&long_reason), false, None),
        Some(lease(0, "QUEUED", None, None)),
    )
    .unwrap();
    assert_eq!(long.message.chars().count(), 400);
    assert!(long.message.starts_with("canceled: xxx"));
}

#[test]
fn cancel_checks_the_expected_revision() {
    let mismatch = plan_job_cancel(
        cancel("JOB-004", None, true, Some(1)),
        Some(lease(2, "QUEUED", None, None)),
    );
    assert!(matches!(mismatch, Err(JobError::RevisionMismatch { expected: 1, actual: 2 })));
    let negative = plan_job_cancel(
        cancel("JOB-004", None, true, Some(-1)),
        Some(lease(2, "QUEUED", None, None)),
    );
    assert!(matches!(negative, Err(JobError::InvalidInput("expected_revision must be >= 0"))));
    let finished = plan_job_cancel(
        cancel("JOB-004", None, true, Some(-1)),
        Some(lease(2, "DONE", None, None)),
    );
    assert!(matches!(finished, Err(JobError::JobAlreadyTerminal { .. })));
}

#[test]
fn requeue_brings_back_only_finished_jobs() {
    let request = |reason: Option<&str>| JobRequeueRequest {
        id: "JOB-005".to_string(),
        reason: reason.map(|s| s.to_string()),
        refs: vec![],
        meta_json: None,
    };
    let running = plan_job_requeue(request(None), Some(lease(3, "RUNNING", Some("r"), None)));
    assert!(matches!(running, Err(JobError::JobNotRequeueable { .. })));
    let plan = plan_job_requeue(request(Some(" flaky ")), Some(lease(3, "FAILED", Some("r"), None)))
        .unwrap();
    assert_eq!(plan.next_revision, 4);
    assert_eq!(plan.message, "requeued: flaky");
    let plain = plan_job_requeue(request(Some("   ")), Some(lease(3, "DONE", None, None))).unwrap();
    assert_eq!(plain.message, "requeued");
}

#[test]
fn messages_reach_only_open_jobs() {
    let request = || JobMessageRequest {
        id: "JOB-006".to_string(),
        message: "  please add tests ".to_string(),
        refs: vec![" CARD-9 ".to_string()],
    };
    let plan = plan_job_message(request(), Some("QUEUED".to_string())).unwrap();
    assert_eq!(plan.message, "please add tests");
    assert_eq!(plan.refs, vec!["CARD-9".to_string()]);
    let done = plan_job_message(request(), Some("DONE".to_string()));
    assert!(matches!(done, Err(JobError::JobNotMessageable { .. })));
    let unknown = plan_job_message(request(), None);
    assert!(matches!(unknown, Err(JobError::UnknownId)));
}

#[test]
fn create_numbers_and_normalizes_a_job() {
    let request = JobCreateRequest {
        title: "  Fix the parser ".to_string(),
        prompt: "do it".to_string(),
        kind: " codex ".to_string(),
        priority: "normal".to_string(),
        task_id: Some("  ".to_string()),
        anchor_id: Some(" a:Storage ".to_string()),
        meta_json: None,
    };
    let plan = plan_job_create(request, 7, 123).unwrap();
    assert_eq!(plan.job.id, "JOB-007");
    assert_eq!(plan.job.revision, 0);
    assert_eq!(plan.job.status, "QUEUED");
    assert_eq!(plan.job.title, "Fix the parser");
    assert_eq!(plan.job.kind, "codex");
    assert_eq!(plan.job.priority, "MEDIUM");
    assert_eq!(plan.job.task_id, None);
    assert_eq!(plan.job.anchor_id.as_deref(), Some("a:storage"));
    assert_eq!(plan.job.created_at_ms, 123);
    assert_eq!(plan.prompt, "do it");

    // A created job is claimable straight away.
    let lease = JobLease {
        revision: plan.job.revision,
        status: plan.job.status.clone(),
        runner: plan.job.runner.clone(),
        claim_expires_at_ms: plan.job.claim_expires_at_ms,
    };
    let claimed = plan_job_claim(&claim(&plan.job.id, "r", 1_000, false), 200, Some(lease)).unwrap();
    assert_eq!(claimed.next_revision, 1);

    let big = JobCreateRequest {
        title: "t".to_string(),
        prompt: "p".to_string(),
        kind: "k".to_string(),
        priority: "urgent".to_string(),
        task_id: None,
        anchor_id: None,
        meta_json: None,
    };
    assert!(matches!(
        plan_job_create(big, 1234, 0),
        Err(JobError::InvalidInput(
            "job.priority is invalid (expected LOW|MEDIUM|HIGH; synonym: normal->MEDIUM)"
        ))
    ));
}

#[test]
fn create_uses_all_digits_of_large_numbers() {
    let request = JobCreateRequest {
        title: "t".to_string(),
        prompt: "p".to_string(),
        kind: "k".to_string(),
        priority: "high".to_string(),
        task_id: Some(" T-1 ".to_string()),
        anchor_id: None,
        meta_json: Some("{}".to_string()),
    };
    let plan = plan_job_create(request, 1234, 0).unwrap();
    assert_eq!(plan.job.id, "JOB-1234");
    assert_eq!(plan.job.task_id.as_deref(), Some("T-1"));
    assert_eq!(plan.meta_json.as_deref(), Some("{}"));
}

fn job_row(id: &str) -> JobRow {
    JobRow {
        id: id.to_string(),
        revision: 1,
        status: "RUNNING".to_string(),
        title: "t".to_string(),
        kind: "k".to_string(),
        priority: "LOW".to_string(),
        task_id: None,
        anchor_id: None,
        runner: Some("r".to_string()),
        claim_expires_at_ms: None,
        summary: None,
        created_at_ms: 1,
        updated_at_ms: 2,
        completed_at_ms: None,
    }
}

fn event(seq: i64) -> JobEventRow {
    JobEventRow {
        seq,
        job_id: "JOB-001".to_string(),
        ts_ms: seq,
        kind: "progress".to_string(),
        message: "m".to_string(),
        percent: None,
        refs: vec![],
        meta_json: None,
    }
}

#[test]
fn open_plans_reads_and_trims_events() {
    let request = |max_events: usize, before_seq: Option<i64>, include_events: bool| JobOpenRequest {
        id: "JOB-001".to_string(),
        include_prompt: true,
        include_meta: false,
        include_events,
        max_events,
        before_seq,
    };
    assert!(matches!(
        plan_job_open(request(5, Some(0), true)),
        Err(JobError::InvalidInput("before_seq must be > 0"))
    ));
    let big = plan_job_open(request(1_000, None, true)).unwrap();
    assert_eq!(big.max_events, 200);
    assert_eq!(big.fetch_events, Some(201));
    let none = plan_job_open(request(5, Some(9), false)).unwrap();
    assert_eq!(none.fetch_events, None);
    assert_eq!(none.before_seq, Some(9));

    let plan = plan_job_open(request(2, None, true)).unwrap();
    assert_eq!(plan.fetch_events, Some(3));
    let found = Some((job_row("JOB-001"), Some("prompt".to_string()), Some("{}".to_string())));
    let shown = job_open_result(&plan, found, vec![event(9), event(8), event(7)]).unwrap();
    assert_eq!(shown.prompt.as_deref(), Some("prompt"));
    assert_eq!(shown.meta_json, None);
    assert!(shown.has_more_events);
    assert_eq!(shown.events.iter().map(|e| e.seq).collect::<Vec<_>>(), vec![9, 8]);

    let exact = job_open_result(&plan, Some((job_row("JOB-001"), None, None)), vec![event(9)]).unwrap();
    assert!(!exact.has_more_events);
    assert_eq!(exact.events.len(), 1);

    assert!(matches!(job_open_result(&plan, None, vec![]), Err(JobError::UnknownId)));
}

#[test]
fn events_are_normalized_and_heartbeats_coalesce() {
    let d = prepare_job_event(" heartbeat ", "  alive ", Some(3), vec![" B".to_string(), "A".to_string()], None)
        .unwrap();
    assert_eq!(d.kind, "heartbeat");
    assert_eq!(d.message, "alive");
    assert_eq!(d.refs, vec!["B".to_string(), "A".to_string()]);
    assert_eq!(d.refs_json, "[\"B\",\"A\"]");
    assert!(matches!(
        prepare_job_event(" ", "m", None, vec![], None),
        Err(JobError::InvalidInput("job_event.kind must not be empty"))
    ));

    let hb = "heartbeat".to_string();
    assert_eq!(job_event_write(&hb, &Some((41, "heartbeat".to_string()))), EventWrite::Overwrite(41));
    assert_eq!(job_event_write(&hb, &Some((41, "progress".to_string()))), EventWrite::Insert);
    assert_eq!(job_event_write(&hb, &None), EventWrite::Insert);
    assert_eq!(
        job_event_write(&"progress".to_string(), &Some((41, "heartbeat".to_string()))),
        EventWrite::Insert
    );
}
