use bm_storage::graph_merge::{check_merge_back_branches, merge_step, run_merge_page, MergeAnswer, MergeDecision, MergeTally};

fn answer(write_went_in: bool, resolved_before: bool, conflict_inserted: bool) -> MergeAnswer {
    MergeAnswer { write_went_in, resolved_before, conflict_inserted }
}

fn sample() -> (Vec<MergeDecision>, Vec<MergeAnswer>) {
    (
        vec![
            MergeDecision::FastForward,
            MergeDecision::Skip,
            MergeDecision::Conflict,
            MergeDecision::FastForward,
            MergeDecision::Conflict,
        ],
        vec![
            answer(true, false, false),
            answer(false, false, false),
            answer(false, false, true),
            answer(false, false, false),
            answer(false, true, false),
        ],
    )
}

#[test]
fn merge_page_counts_each_candidate_once() {
    let (ds, ans) = sample();
    let t = run_merge_page(&ds, &ans, false, 10);
    assert_eq!(t.processed, 5);
    assert_eq!(t.merged, 1);
    assert_eq!(t.skipped, 3);
    assert_eq!(t.conflicts_detected, 1);
    assert_eq!(t.conflicts_created, 1);
    assert_eq!(t.writes, 2);
    assert_eq!(t.merged + t.skipped + t.conflicts_detected, t.processed);
}

#[test]
fn merge_page_stops_at_its_limit() {
    let (ds, ans) = sample();
    let t = run_merge_page(&ds, &ans, false, 2);
    assert_eq!(t.processed, 2);
    assert_eq!(t.merged + t.skipped + t.conflicts_detected, 2);
}

#[test]
fn dry_run_writes_nothing() {
    let (ds, ans) = sample();
    let t = run_merge_page(&ds, &ans, true, 10);
    assert_eq!(t.writes, 0);
    assert_eq!(t.conflicts_created, 0);
    assert_eq!(t.merged, 2);
    assert_eq!(t.conflicts_detected, 1);
}

#[test]
fn one_merge_step() {
    let mut t = MergeTally { merged: 0, skipped: 0, conflicts_detected: 0, conflicts_created: 0, processed: 0, writes: 0 };
    merge_step(&mut t, MergeDecision::FastForward, false, answer(false, false, false));
    assert_eq!((t.merged, t.skipped, t.processed, t.writes), (0, 1, 1, 0));
}

#[test]
fn merge_back_needs_the_fork_base() {
    use_branches();
}

fn use_branches() {
    let base = Some(("main".to_string(), 42i64));
    assert_eq!(check_merge_back_branches(true, true, &base, "main").unwrap(), 42);
    assert!(matches!(check_merge_back_branches(true, true, &base, "other"), Err(bm_storage::StoreError::MergeNotSupported)));
    assert!(matches!(check_merge_back_branches(true, true, &None, "main"), Err(bm_storage::StoreError::MergeNotSupported)));
    assert!(matches!(check_merge_back_branches(false, true, &base, "main"), Err(bm_storage::StoreError::UnknownBranch)));
}
