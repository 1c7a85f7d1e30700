use bm_storage::error::StoreError;
use bm_storage::graph::{GraphEdge, GraphNode};
use bm_storage::sources::{
    append_sources_clause, next_task_revision, BranchSource, GraphDiffCandidate,
    GraphMergeCandidate, SourcesWalk, SqlParam, MAX_SOURCE_DEPTH,
};

fn view(w: &SourcesWalk) -> Vec<(String, Option<i64>)> {
    w.sources.iter().map(|s| (s.branch.clone(), s.cutoff_seq)).collect()
}

#[test]
fn a_view_walks_up_the_bases_with_shrinking_cutoffs() {
    let mut w = SourcesWalk::start("feature");
    assert_eq!(w.current(), "feature");
    assert_eq!(w.step(Some(("dev".to_string(), 50))).unwrap(), true);
    assert_eq!(w.current(), "dev");
    assert_eq!(w.step(Some(("main".to_string(), 80))).unwrap(), true);
    assert_eq!(w.step(None).unwrap(), false);
    assert_eq!(
        view(&w),
        vec![("feature".to_string(), None), ("dev".to_string(), Some(50)), ("main".to_string(), Some(50))]
    );
    let mut v = SourcesWalk::start("a");
    assert_eq!(v.step(Some(("b".to_string(), 9))).unwrap(), true);
    assert_eq!(v.step(Some(("c".to_string(), 4))).unwrap(), true);
    assert_eq!(view(&v)[2], ("c".to_string(), Some(4)));
}

#[test]
fn a_branch_based_on_itself_ends_the_walk() {
    let mut w = SourcesWalk::start("main");
    assert_eq!(w.step(Some(("main".to_string(), 0))).unwrap(), false);
    assert_eq!(view(&w), vec![("main".to_string(), None)]);
}

#[test]
fn cycles_and_deep_chains_are_refused() {
    let mut w = SourcesWalk::start("a");
    w.step(Some(("b".to_string(), 1))).unwrap();
    assert!(matches!(w.step(Some(("a".to_string(), 1))), Err(StoreError::BranchCycle)));

    let mut deep = SourcesWalk::start("b0");
    for i in 1..MAX_SOURCE_DEPTH {
        assert_eq!(deep.step(Some((format!("b{i}"), 100))).unwrap(), true);
    }
    assert!(matches!(deep.step(Some(("last".to_string(), 1))), Err(StoreError::BranchDepthExceeded)));
}

#[test]
fn sources_clause_and_params() {
    let sources = vec![
        BranchSource { branch: "feature".to_string(), cutoff_seq: None },
        BranchSource { branch: "main".to_string(), cutoff_seq: Some(7) },
    ];
    let mut sql: Vec<char> = "WHERE ".chars().collect();
    let mut params = vec![SqlParam::Text("ws".to_string())];
    append_sources_clause(&mut sql, &mut params, &sources);
    assert_eq!(sql.iter().collect::<String>(), "WHERE ((branch=?) OR (branch=? AND seq <= ?))");
    let got: Vec<String> = params
        .iter()
        .map(|p| match p {
            SqlParam::Text(t) => format!("T:{t}"),
            SqlParam::Integer(v) => format!("I:{v}"),
        })
        .collect();
    assert_eq!(got, vec!["T:ws", "T:feature", "T:main", "I:7"]);
    let mut empty_sql = Vec::new();
    let mut none = Vec::new();
    append_sources_clause(&mut empty_sql, &mut none, &[]);
    assert_eq!(empty_sql.iter().collect::<String>(), "()");
}

#[test]
fn task_revisions() {
    assert_eq!(next_task_revision(Some(4), None).unwrap(), 5);
    assert_eq!(next_task_revision(Some(4), Some(4)).unwrap(), 5);
    assert!(matches!(
        next_task_revision(Some(4), Some(3)),
        Err(StoreError::RevisionMismatch { expected: 3, actual: 4 })
    ));
    assert!(matches!(next_task_revision(None, Some(1)), Err(StoreError::UnknownId)));
}

#[test]
fn candidates_report_their_sequence() {
    let n = GraphNode {
        id: "n".to_string(),
        node_type: "t".to_string(),
        title: None,
        text: None,
        tags: vec![],
        status: None,
        meta_json: None,
        deleted: false,
        last_seq: 12,
        last_ts_ms: 0,
    };
    let e = GraphEdge {
        from: "a".to_string(),
        rel: "r".to_string(),
        to: "b".to_string(),
        meta_json: None,
        deleted: false,
        last_seq: 13,
        last_ts_ms: 0,
    };
    assert_eq!(GraphMergeCandidate::Node { theirs: n.clone() }.last_seq(), 12);
    assert_eq!(GraphMergeCandidate::Edge { theirs: e.clone() }.last_seq(), 13);
    assert_eq!(GraphDiffCandidate::Node { to: n }.last_seq(), 12);
    let d = GraphDiffCandidate::Edge { from: "a".to_string(), rel: "r".to_string(), target: "b".to_string(), to: e };
    assert_eq!(d.last_seq(), 13);
}
