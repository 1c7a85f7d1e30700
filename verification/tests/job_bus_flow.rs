use bm_storage::store::error::StoreError;
use bm_storage::store::job_bus::{
    ack_offset, plan_bus_publish, plan_thread_statuses, pull_limit, pull_page, pull_start,
    JobBusMessageRow, JobBusPublishRequest, JobBusThreadStatusRequest,
};

fn invalid<T: std::fmt::Debug>(r: Result<T, StoreError>) -> &'static str {
    match r {
        Err(StoreError::InvalidInput(m)) => m,
        other => panic!("expected invalid input, got {other:?}"),
    }
}

fn request() -> JobBusPublishRequest {
    JobBusPublishRequest {
        thread_id: " team/alpha ".to_string(),
        idempotency_key: " k-1 ".to_string(),
        from_agent_id: " agent-a ".to_string(),
        from_job_id: Some("JOB-001".to_string()),
        to_agent_id: Some(" agent-b".to_string()),
        kind: " note ".to_string(),
        summary: " hello ".to_string(),
        refs: vec!["CARD-2".to_string(), " CARD-1 ".to_string(), "CARD-2".to_string(), " ".to_string()],
        payload_json: Some("  {\"a\": 1}  ".to_string()),
    }
}

fn message(seq: i64) -> JobBusMessageRow {
    JobBusMessageRow {
        seq,
        ts_ms: seq,
        thread_id: "t".to_string(),
        from_agent_id: "a".to_string(),
        from_job_id: None,
        to_agent_id: None,
        kind: "k".to_string(),
        summary: "s".to_string(),
        refs: vec![],
        payload_json: None,
        idempotency_key: format!("k{seq}"),
    }
}

#[test]
fn publish_normalizes_a_message() {
    let p = plan_bus_publish(request()).unwrap();
    assert_eq!(p.idempotency_key, "k-1");
    assert_eq!(p.from_agent_id, "agent-a");
    assert_eq!(p.to_agent_id.as_deref(), Some("agent-b"));
    assert_eq!(p.kind, "note");
    assert_eq!(p.summary, "hello");
    assert_eq!(p.refs, vec!["CARD-1".to_string(), "CARD-2".to_string()]);
    assert_eq!(p.refs_json, "[\"CARD-1\",\"CARD-2\"]");
    assert_eq!(p.payload_json.as_deref(), Some("{\"a\": 1}"));
}

#[test]
fn publish_refuses_bad_fields_in_order() {
    let mut r = request();
    r.payload_json = Some("{not json".to_string());
    assert_eq!(invalid(plan_bus_publish(r)), "payload_json: expected valid JSON");

    let mut r = request();
    r.payload_json = Some("   ".to_string());
    assert_eq!(plan_bus_publish(r).unwrap().payload_json, None);

    let mut r = request();
    r.to_agent_id = Some(" ".to_string());
    r.kind = "".to_string();
    assert_eq!(invalid(plan_bus_publish(r)), "to_agent_id must not be empty");

    let mut r = request();
    r.from_agent_id = "".to_string();
    r.summary = "".to_string();
    assert_eq!(invalid(plan_bus_publish(r)), "from_agent_id must not be empty");

    let mut r = request();
    r.idempotency_key = "x".repeat(129);
    assert_eq!(invalid(plan_bus_publish(r)), "idempotency_key too long");

    let mut r = request();
    r.summary = "s".repeat(801);
    assert_eq!(invalid(plan_bus_publish(r)), "summary too long");
}

#[test]
fn pulls_page_through_a_thread() {
    assert_eq!(pull_limit(0), 1);
    assert_eq!(pull_limit(50), 50);
    assert_eq!(pull_limit(5_000), 200);
    assert_eq!(pull_start(Some(4), Some(9)), 4);
    assert_eq!(pull_start(None, Some(9)), 9);
    assert_eq!(pull_start(None, None), 0);

    let (kept, next, more) = pull_page(vec![message(5), message(6), message(7)], 2, 4);
    assert_eq!(kept.iter().map(|m| m.seq).collect::<Vec<_>>(), vec![5, 6]);
    assert_eq!(next, 6);
    assert!(more);

    let (kept, next, more) = pull_page(vec![], 2, 4);
    assert!(kept.is_empty());
    assert_eq!(next, 4);
    assert!(!more);
}

#[test]
fn acks_never_move_back() {
    assert_eq!(ack_offset(None, 5), 5);
    assert_eq!(ack_offset(Some(9), 5), 9);
    assert_eq!(ack_offset(Some(3), 5), 5);
    assert_eq!(ack_offset(None, -4), 0);
    let once = ack_offset(Some(2), 7);
    assert_eq!(ack_offset(Some(once), 7), once);
}

fn status_request(consumer: &str, threads: &[&str]) -> JobBusThreadStatusRequest {
    JobBusThreadStatusRequest {
        consumer_id: consumer.to_string(),
        thread_ids: threads.iter().map(|t| t.to_string()).collect(),
    }
}

#[test]
fn thread_statuses_sort_and_dedup_normalized_threads() {
    let plan = plan_thread_statuses(&status_request(" agent-1 ", &["task/2", "dm/zed/amy", "task/2", "dm/amy/zed"]))
        .unwrap();
    assert_eq!(plan.consumer_id, "agent-1");
    assert_eq!(plan.thread_ids, vec!["dm/amy/zed".to_string(), "task/2".to_string()]);
}

#[test]
fn thread_statuses_check_consumer_first_then_threads() {
    assert_eq!(
        invalid(plan_thread_statuses(&status_request("  ", &[""]))),
        "consumer_id must not be empty"
    );
    assert_eq!(
        invalid(plan_thread_statuses(&status_request("agent-1", &["task/1", " "]))),
        "thread_id must not be empty"
    );
}

#[test]
fn thread_statuses_look_at_the_first_eighty_threads_only() {
    let mut threads: Vec<String> = (0..80).map(|i| format!("t/{:03}", i)).collect();
    threads.push(" ".to_string());
    let refs: Vec<&str> = threads.iter().map(|s| s.as_str()).collect();
    let plan = plan_thread_statuses(&status_request("agent-1", &refs)).unwrap();
    assert_eq!(plan.thread_ids.len(), 80);
    assert_eq!(plan.thread_ids[0], "t/000");
}
