use bm_storage::store::branch_store::{
    advanced_updated_at, branch_state_from_row, check_child_depth, check_no_descendants,
    check_parent_branch, clamp_ms, commit_parent, failure_is_constraint, insert_conflict_from,
    is_constraint_violation, map_insert_conflict, now_ms, require_known_branch, require_known_id,
    require_parent_on_branch, schema_version_verdict, tables_verdict, to_sqlite_i64, DepthWalk,
    SqlFailure, MAX_BRANCH_DEPTH,
};
use bm_storage::store::error::StoreError;
use bm_storage::store::fields::{bounded_trimmed, clipped_trimmed, normalize_non_empty};
use bm_storage::store::job_bus::{
    normalize_agent_id, normalize_idempotency_key, normalize_kind, normalize_refs,
    normalize_summary, normalize_thread_id,
};
use bm_storage::store::runners::{
    normalize_active_job_id, normalize_runner_id, normalize_runner_status,
    normalize_runner_status_filter,
};

fn invalid<T: std::fmt::Debug>(r: Result<T, StoreError>) -> &'static str {
    match r {
        Err(StoreError::InvalidInput(m)) => m,
        other => panic!("expected invalid input, got {other:?}"),
    }
}

fn strings(v: &[&str]) -> Vec<String> {
    v.iter().map(|s| s.to_string()).collect()
}

#[test]
fn error_codes_hints_and_messages() {
    let reset = StoreError::InvalidInput("RESET_REQUIRED: schema version mismatch");
    assert_eq!(reset.code(), "RESET_REQUIRED");
    assert_eq!(
        reset.recovery_hint(),
        Some("legacy storage is not supported: backup data, wipe storage dir, then re-open")
    );
    assert_eq!(reset.message(), "invalid input: RESET_REQUIRED: schema version mismatch");

    let bad = StoreError::InvalidInput("x");
    assert_eq!((bad.code(), bad.recovery_hint()), ("INVALID_INPUT", None));
    assert_eq!(StoreError::UnknownId.code(), "NOT_FOUND");
    assert_eq!(StoreError::UnknownBranch.recovery_hint(), Some("create required entity before retry"));
    assert_eq!(StoreError::UnknownBranch.message(), "unknown branch");
    assert_eq!(StoreError::BranchAlreadyExists.code(), "ALREADY_EXISTS");
    assert_eq!(
        StoreError::BranchAlreadyExists.recovery_hint(),
        Some("use a different identifier or delete existing record")
    );
    assert_eq!(StoreError::BranchCycle.code(), "BRANCH_CYCLE");
    assert_eq!(StoreError::BranchCycle.message(), "branch parent cycle");
    assert_eq!(StoreError::BranchDepthExceeded.code(), "BRANCH_DEPTH_EXCEEDED");
    assert_eq!(StoreError::BranchDepthExceeded.message(), "branch depth exceeded");
    assert_eq!(StoreError::UnknownId.message(), "unknown id");

    let io = StoreError::Io(std::io::Error::new(std::io::ErrorKind::Other, "disk gone"));
    assert_eq!(io.code(), "INTERNAL");
    assert_eq!(io.message(), "io: disk gone");
    let sql = StoreError::Sql(rusqlite::Error::QueryReturnedNoRows);
    assert_eq!(sql.code(), "INTERNAL");
    assert!(sql.message().starts_with("sqlite: "));
    assert!(sql.message().len() > "sqlite: ".len());
}

#[test]
fn numbers_for_sqlite() {
    assert_eq!(to_sqlite_i64(42).unwrap(), 42);
    assert_eq!(invalid(to_sqlite_i64(usize::MAX)), "numeric overflow");
    assert_eq!(clamp_ms(5), 5);
    assert_eq!(clamp_ms(u128::MAX), i64::MAX);
    assert!(now_ms() > 1_600_000_000_000);
}

#[test]
fn opening_checks_tables_and_schema_version() {
    assert_eq!(tables_verdict(&vec![]).unwrap(), false);
    let all = strings(&["workspace_state", "workspaces", "branches", "branch_checkout", "commits", "merge_records"]);
    assert_eq!(tables_verdict(&all).unwrap(), true);
    let mut extra = all.clone();
    extra.push("tasks".to_string());
    assert_eq!(invalid(tables_verdict(&extra)), "RESET_REQUIRED: unsupported tables detected");
    assert_eq!(invalid(tables_verdict(&strings(&["branches"]))), "RESET_REQUIRED: required table is missing");
    assert!(schema_version_verdict(Some(3)).is_ok());
    assert_eq!(invalid(schema_version_verdict(Some(2))), "RESET_REQUIRED: schema version mismatch");
    assert_eq!(invalid(schema_version_verdict(None)), "RESET_REQUIRED: schema state row is missing");
}

#[test]
fn branch_and_commit_decisions() {
    let st = branch_state_from_row(Some((Some("c1".to_string()), 9))).unwrap();
    assert_eq!((st.head_commit_id.as_deref(), st.updated_at_ms), (Some("c1"), 9));
    assert!(matches!(branch_state_from_row(None), Err(StoreError::UnknownId)));
    assert!(require_known_id(true).is_ok());
    assert!(matches!(require_known_id(false), Err(StoreError::UnknownId)));
    assert!(matches!(require_known_branch(false), Err(StoreError::UnknownBranch)));
    assert_eq!(invalid(require_parent_on_branch(false)), "parent commit must belong to the same branch");
    assert!(matches!(check_parent_branch("b", Some("b")), Err(StoreError::BranchCycle)));
    assert!(check_parent_branch("b", Some("a")).is_ok());
    assert!(check_parent_branch("b", None).is_ok());
    assert!(check_child_depth(MAX_BRANCH_DEPTH - 1).is_ok());
    assert!(matches!(check_child_depth(MAX_BRANCH_DEPTH), Err(StoreError::BranchDepthExceeded)));
    assert_eq!(invalid(check_no_descendants(2)), "branch has descendants and cannot be deleted");
    assert!(check_no_descendants(0).is_ok());
    assert_eq!(commit_parent(Some("p".to_string()), Some("h".to_string())), Some("p".to_string()));
    assert_eq!(commit_parent(None, Some("h".to_string())), Some("h".to_string()));
    assert_eq!(advanced_updated_at(10, 5), 10);
    assert_eq!(advanced_updated_at(10, 50), 50);
}

#[test]
fn depth_walk_refuses_cycles_and_deep_chains() {
    let mut w = DepthWalk::new();
    assert!(w.visit("a").is_ok());
    assert!(w.visit("b").is_ok());
    assert!(matches!(w.visit("a"), Err(StoreError::BranchCycle)));
    for _ in 0..MAX_BRANCH_DEPTH {
        assert!(w.step_up().is_ok());
    }
    assert!(matches!(w.step_up(), Err(StoreError::BranchDepthExceeded)));
    assert_eq!(w.depth, MAX_BRANCH_DEPTH);
}

#[test]
fn insert_conflicts_become_already_exists() {
    let by_code = Some(SqlFailure { constraint_code: true, message: None });
    let by_text = Some(SqlFailure { constraint_code: false, message: Some("UNIQUE constraint failed: b.id".to_string()) });
    let by_key = Some(SqlFailure { constraint_code: false, message: Some("PRIMARY KEY constraint failed".to_string()) });
    let other = Some(SqlFailure { constraint_code: false, message: Some("disk I/O error".to_string()) });
    assert!(failure_is_constraint(&by_code));
    assert!(failure_is_constraint(&by_text));
    assert!(failure_is_constraint(&by_key));
    assert!(!failure_is_constraint(&other));
    assert!(!failure_is_constraint(&None));
    assert!(matches!(
        insert_conflict_from(&by_code, rusqlite::Error::QueryReturnedNoRows),
        StoreError::BranchAlreadyExists
    ));
    assert!(matches!(insert_conflict_from(&other, rusqlite::Error::QueryReturnedNoRows), StoreError::Sql(_)));

    let conn = rusqlite::Connection::open_in_memory().unwrap();
    conn.execute("CREATE TABLE b (id TEXT PRIMARY KEY)", []).unwrap();
    conn.execute("INSERT INTO b (id) VALUES ('x')", []).unwrap();
    let err = conn.execute("INSERT INTO b (id) VALUES ('x')", []).unwrap_err();
    assert!(is_constraint_violation(&err));
    assert!(matches!(map_insert_conflict(err), StoreError::BranchAlreadyExists));
    assert!(!is_constraint_violation(&rusqlite::Error::QueryReturnedNoRows));
    assert!(matches!(map_insert_conflict(rusqlite::Error::QueryReturnedNoRows), StoreError::Sql(_)));
}

#[test]
fn bounded_fields() {
    assert_eq!(bounded_trimmed(" ab ", 2, "empty", "long").unwrap(), "ab");
    assert_eq!(invalid(bounded_trimmed("  ", 2, "empty", "long")), "empty");
    assert_eq!(invalid(bounded_trimmed("é", 1, "empty", "long")), "long");
    assert_eq!(clipped_trimmed(" abcdef ", 3, "empty").unwrap(), "abc");
    assert_eq!(invalid(clipped_trimmed("", 3, "empty")), "empty");
    assert_eq!(normalize_non_empty(" x ", "field").unwrap(), "x");
    assert_eq!(invalid(normalize_non_empty(" ", "field must not be empty")), "field must not be empty");
}

#[test]
fn bus_thread_ids() {
    assert_eq!(normalize_thread_id(" a\\b//./c/ ").unwrap(), "a/b/c");
    assert_eq!(normalize_thread_id("DM/zed/amy").unwrap(), "dm/amy/zed");
    assert_eq!(normalize_thread_id("dm/amy/zed").unwrap(), "dm/amy/zed");
    assert_eq!(invalid(normalize_thread_id("  ")), "thread_id must not be empty");
    assert_eq!(invalid(normalize_thread_id("/./")), "thread_id must not be empty");
    assert_eq!(invalid(normalize_thread_id("a/../b")), "thread_id must not contain '..'");
    assert_eq!(invalid(normalize_thread_id(&"t".repeat(201))), "thread_id too long");
}

#[test]
fn bus_fields() {
    assert_eq!(normalize_agent_id(" agent ", "from_agent_id must not be empty").unwrap(), "agent");
    assert_eq!(invalid(normalize_agent_id("", "from_agent_id must not be empty")), "from_agent_id must not be empty");
    assert_eq!(invalid(normalize_agent_id(&"a".repeat(129), "x")), "agent id too long");
    assert_eq!(normalize_kind(" note ").unwrap(), "note");
    assert_eq!(invalid(normalize_kind("")), "kind must not be empty");
    assert_eq!(invalid(normalize_kind(&"k".repeat(49))), "kind too long");
    assert_eq!(invalid(normalize_summary(" ")), "summary must not be empty");
    assert_eq!(invalid(normalize_summary(&"s".repeat(801))), "summary too long");
    assert_eq!(normalize_idempotency_key(" k1 ").unwrap(), "k1");
    assert_eq!(invalid(normalize_idempotency_key("")), "idempotency_key must not be empty");
    assert_eq!(invalid(normalize_idempotency_key(&"i".repeat(129))), "idempotency_key too long");
}

#[test]
fn bus_refs_are_clipped_sorted_and_unique() {
    let refs = strings(&["b", " a ", "", "b"]);
    assert_eq!(normalize_refs(refs).unwrap(), strings(&["a", "b"]));
    let long = vec!["x".repeat(300)];
    assert_eq!(normalize_refs(long).unwrap(), vec!["x".repeat(256)]);
    let many: Vec<String> = (0..40).map(|i| format!("r{i:02}")).collect();
    let out = normalize_refs(many).unwrap();
    assert_eq!(out.len(), 32);
    assert_eq!(out.last().unwrap(), "r31");
}

#[test]
fn runner_fields() {
    assert_eq!(normalize_runner_id(" r1 ").unwrap(), "r1");
    assert_eq!(invalid(normalize_runner_id("")), "runner_id must not be empty");
    assert_eq!(normalize_runner_status(" LIVE ").unwrap(), "live");
    assert_eq!(invalid(normalize_runner_status("")), "runner.status must not be empty");
    assert_eq!(invalid(normalize_runner_status("busy")), "runner.status is invalid (expected idle|live)");
    assert_eq!(normalize_runner_status_filter(None).unwrap(), None);
    assert_eq!(normalize_runner_status_filter(Some(" ".to_string())).unwrap(), None);
    assert_eq!(normalize_runner_status_filter(Some("Idle".to_string())).unwrap(), Some("idle".to_string()));
    assert_eq!(normalize_active_job_id(Some(" JOB-7 ".to_string())).unwrap(), Some("JOB-7".to_string()));
    assert_eq!(normalize_active_job_id(Some("".to_string())).unwrap(), None);
    assert_eq!(invalid(normalize_active_job_id(Some("7".to_string()))), "runner.active_job_id must start with JOB-");
}
