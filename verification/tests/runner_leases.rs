use bm_storage::store::error::StoreError;
use bm_storage::store::runners::{
    plan_runner_lease, runner_status_summary, RunnerLeaseRow, RunnerLeaseUpsertRequest,
};

fn lease(id: &str, status: &str, job: Option<&str>, expires: i64) -> RunnerLeaseRow {
    RunnerLeaseRow {
        runner_id: id.to_string(),
        status: status.to_string(),
        active_job_id: job.map(|s| s.to_string()),
        lease_expires_at_ms: expires,
        created_at_ms: 0,
        updated_at_ms: 0,
    }
}

fn request(status: &str, job: Option<&str>, ttl: u64) -> RunnerLeaseUpsertRequest {
    RunnerLeaseUpsertRequest {
        runner_id: " runner-1 ".to_string(),
        status: status.to_string(),
        active_job_id: job.map(|s| s.to_string()),
        lease_ttl_ms: ttl,
        meta_json: None,
    }
}

#[test]
fn lease_upsert_renews_and_keeps_creation_time() {
    let row = plan_runner_lease(&request(" LIVE ", Some(" JOB-007 "), 10), 1_000, Some(5)).unwrap();
    assert_eq!(row.runner_id, "runner-1");
    assert_eq!(row.status, "live");
    assert_eq!(row.active_job_id.as_deref(), Some("JOB-007"));
    assert_eq!(row.lease_expires_at_ms, 2_000);
    assert_eq!(row.created_at_ms, 5);
    assert_eq!(row.updated_at_ms, 1_000);

    let fresh = plan_runner_lease(&request("idle", None, 10_000_000), 1_000, None).unwrap();
    assert_eq!(fresh.lease_expires_at_ms, 301_000);
    assert_eq!(fresh.created_at_ms, 1_000);

    assert!(matches!(
        plan_runner_lease(&request("busy", None, 1), 0, None),
        Err(StoreError::InvalidInput("runner.status is invalid (expected idle|live)"))
    ));
    assert!(matches!(
        plan_runner_lease(&request("live", Some("TASK-1"), 1), 0, None),
        Err(StoreError::InvalidInput("runner.active_job_id must start with JOB-"))
    ));
}

#[test]
fn status_prefers_live_then_idle_runners() {
    let rows = vec![
        lease("r-idle", "idle", None, 90),
        lease("r-live", "live", Some("JOB-001"), 80),
        lease("r-other", "stale", None, 70),
        lease("r-live2", "live", None, 60),
    ];
    let s = runner_status_summary(&rows, 3);
    assert_eq!(s.status, "live");
    assert_eq!((s.live_count, s.idle_count, s.offline_count), (2, 1, 3));
    assert_eq!(s.runner_id.as_deref(), Some("r-live"));
    assert_eq!(s.active_job_id.as_deref(), Some("JOB-001"));
    assert_eq!(s.lease_expires_at_ms, Some(80));

    let idle_only = runner_status_summary(&rows[..1], 0);
    assert_eq!(idle_only.status, "idle");
    assert_eq!(idle_only.runner_id.as_deref(), Some("r-idle"));

    let none = runner_status_summary(&[], 4);
    assert_eq!(none.status, "offline");
    assert_eq!(none.runner_id, None);
    assert_eq!(none.lease_expires_at_ms, None);
}
