use bm_storage::conflict::{
    check_resolution, plan_conflict_resolution, resolve_source_event_id, ConflictPlan,
    GraphConflictDetail, GraphConflictDetailRow,
};
use bm_storage::error::StoreError;
use bm_storage::graph::{
    build_graph_op_event, decode_tags, encode_tags, graph_conflict_id, graph_edge_semantic_eq,
    graph_node_semantic_eq, GraphEdge, GraphEdgeUpsert, GraphNode, GraphNodeUpsert, GraphOp,
};
use bm_storage::graph_apply::{
    check_apply_request, check_edge_delete, check_edge_endpoints, check_node_delete,
    GraphApplyResult,
};
use bm_storage::graph_merge::{
    check_merge_back_request, decide_edge_merge, decide_node_merge, edge_key_string,
    edge_merge_key, interleave_by_seq, merge_back_window, node_merge_key, page_end,
    MergeBackState, MergeDecision,
};

fn node(id: &str, title: &str) -> GraphNode {
    GraphNode {
        id: id.to_string(),
        node_type: "idea".to_string(),
        title: Some(title.to_string()),
        text: None,
        tags: vec!["a".to_string(), "b".to_string()],
        status: None,
        meta_json: Some("{\"k\":1}".to_string()),
        deleted: false,
        last_seq: 1,
        last_ts_ms: 2,
    }
}

fn edge(from: &str, to: &str) -> GraphEdge {
    GraphEdge {
        from: from.to_string(),
        rel: "supports".to_string(),
        to: to.to_string(),
        meta_json: None,
        deleted: false,
        last_seq: 3,
        last_ts_ms: 4,
    }
}

fn invalid(r: Result<(), StoreError>) -> &'static str {
    match r {
        Err(StoreError::InvalidInput(m)) => m,
        _ => panic!("expected invalid input"),
    }
}

#[test]
fn tags_are_framed_by_newlines() {
    let tags = vec!["x".to_string(), "y z".to_string()];
    assert_eq!(encode_tags(&tags), Some("\nx\ny z\n".to_string()));
    assert_eq!(encode_tags(&[]), None);
}

#[test]
fn tags_round_trip() {
    let tags = vec!["alpha".to_string(), "beta".to_string(), "v:canon".to_string()];
    let stored = encode_tags(&tags);
    assert_eq!(decode_tags(stored.as_deref()), tags);
    assert_eq!(decode_tags(None), Vec::<String>::new());
    assert_eq!(decode_tags(Some("\n\na\n\nb")), vec!["a".to_string(), "b".to_string()]);
}

#[test]
fn semantic_equality_ignores_versions_and_meta_whitespace() {
    let a = node("n1", "T");
    let mut b = node("n1", "T");
    b.last_seq = 99;
    b.last_ts_ms = 100;
    b.meta_json = Some("  {\"k\":1}\n".to_string());
    assert!(graph_node_semantic_eq(Some(&a), Some(&b)));
    b.title = Some("other".to_string());
    assert!(!graph_node_semantic_eq(Some(&a), Some(&b)));
    assert!(graph_node_semantic_eq(None, None));
    assert!(!graph_node_semantic_eq(Some(&a), None));

    let e = edge("n1", "n2");
    let mut f = edge("n1", "n2");
    f.last_seq = 50;
    assert!(graph_edge_semantic_eq(Some(&e), Some(&f)));
    f.deleted = true;
    assert!(!graph_edge_semantic_eq(Some(&e), Some(&f)));
}

fn reference_conflict_id(parts: &[&str], seqs: &[i64]) -> String {
    const OFFSET: u64 = 14695981039346656037;
    const PRIME: u64 = 1099511628211;
    let mut out = String::from("CONFLICT-");
    for (lane, seed) in [(0u64, OFFSET), (1u64, OFFSET ^ 0x9e3779b97f4a7c15)] {
        let mut h = seed;
        for p in parts {
            for b in p.as_bytes() {
                h ^= *b as u64;
                h = h.wrapping_mul(PRIME);
            }
            h ^= 0xff;
            h = h.wrapping_mul(PRIME);
        }
        for v in seqs {
            for b in v.to_le_bytes() {
                h ^= b as u64;
                h = h.wrapping_mul(PRIME);
            }
            h ^= 0xff;
            h = h.wrapping_mul(PRIME);
        }
        h ^= lane;
        h = h.wrapping_mul(PRIME);
        out.push_str(&format!("{h:016x}"));
    }
    out
}

#[test]
fn conflict_id_is_a_double_fnv_hash() {
    let id = graph_conflict_id("ws", "feat", "main", "graph", "node", "n1", 10, 20, 30);
    assert_eq!(id, reference_conflict_id(&["ws", "feat", "main", "graph", "node", "n1"], &[10, 20, 30]));
    assert_eq!(id.len(), "CONFLICT-".len() + 32);
    let other = graph_conflict_id("ws", "feat", "main", "graph", "node", "n1", 10, 20, 31);
    assert_ne!(id, other);
    let unicode = graph_conflict_id("wś", "f", "m", "d", "edge", "a|r|b", -1, 0, i64::MAX);
    assert_eq!(unicode, reference_conflict_id(&["wś", "f", "m", "d", "edge", "a|r|b"], &[-1, 0, i64::MAX]));
}

#[test]
fn op_events_for_each_operation() {
    let up = GraphOp::NodeUpsert(GraphNodeUpsert {
        id: "n1".to_string(),
        node_type: "idea".to_string(),
        title: Some("T \"q\"".to_string()),
        text: None,
        tags: vec!["a".to_string()],
        status: Some("open".to_string()),
        meta_json: Some(" {\"x\":1} ".to_string()),
    });
    let (kind, payload) = build_graph_op_event(&up);
    assert_eq!(kind, "graph_node_upsert");
    assert_eq!(
        payload,
        "{\"op\":\"node_upsert\",\"id\":\"n1\",\"type\":\"idea\",\"title\":\"T \\\"q\\\"\",\"status\":\"open\",\"tags\":[\"a\"],\"meta\":{\"x\":1}}"
    );

    let del = GraphOp::NodeDelete { id: "n1".to_string() };
    assert_eq!(build_graph_op_event(&del), ("graph_node_delete", "{\"op\":\"node_delete\",\"id\":\"n1\"}".to_string()));

    let eu = GraphOp::EdgeUpsert(GraphEdgeUpsert {
        from: "a".to_string(),
        rel: "supports".to_string(),
        to: "b".to_string(),
        meta_json: Some("raw".to_string()),
    });
    assert_eq!(
        build_graph_op_event(&eu),
        (
            "graph_edge_upsert",
            "{\"op\":\"edge_upsert\",\"from\":\"a\",\"rel\":\"supports\",\"to\":\"b\",\"meta_raw\":\"raw\"}".to_string()
        )
    );

    let ed = GraphOp::EdgeDelete { from: "a".to_string(), rel: "r".to_string(), to: "b".to_string() };
    assert_eq!(
        build_graph_op_event(&ed),
        ("graph_edge_delete", "{\"op\":\"edge_delete\",\"from\":\"a\",\"rel\":\"r\",\"to\":\"b\"}".to_string())
    );
}

#[test]
fn three_way_node_merge() {
    let base = node("n", "base");
    let theirs = node("n", "theirs");
    let ours_changed = node("n", "ours");
    assert_eq!(decide_node_merge(Some(&base), &theirs, Some(&base)), MergeDecision::FastForward);
    assert_eq!(decide_node_merge(Some(&base), &theirs, Some(&theirs)), MergeDecision::Skip);
    assert_eq!(decide_node_merge(Some(&theirs), &theirs, Some(&ours_changed)), MergeDecision::Skip);
    assert_eq!(decide_node_merge(Some(&base), &theirs, Some(&ours_changed)), MergeDecision::Conflict);
    assert_eq!(decide_node_merge(None, &theirs, None), MergeDecision::FastForward);
    assert_eq!(decide_node_merge(None, &theirs, Some(&ours_changed)), MergeDecision::Conflict);
}

#[test]
fn three_way_edge_merge() {
    let base = edge("a", "b");
    let mut theirs = edge("a", "b");
    theirs.meta_json = Some("{\"w\":2}".to_string());
    let mut ours = edge("a", "b");
    ours.deleted = true;
    assert_eq!(decide_edge_merge(Some(&base), &theirs, Some(&base)), MergeDecision::FastForward);
    assert_eq!(decide_edge_merge(Some(&base), &theirs, Some(&ours)), MergeDecision::Conflict);
    assert_eq!(decide_edge_merge(None, &theirs, Some(&theirs)), MergeDecision::Skip);
}

#[test]
fn merge_back_request_checks_each_field() {
    assert_eq!(invalid(check_merge_back_request(" ", "main", "g")), "from_branch must not be empty");
    assert_eq!(invalid(check_merge_back_request("f", "", "g")), "into_branch must not be empty");
    assert_eq!(invalid(check_merge_back_request("f", "main", "\t")), "doc must not be empty");
    assert!(check_merge_back_request("f", "main", "g").is_ok());
}

#[test]
fn merge_back_window_clamps_limits() {
    let w = merge_back_window(None, 0);
    assert_eq!((w.before_seq, w.limit, w.scan_limit), (i64::MAX, 1, 5));
    let w = merge_back_window(Some(77), 50);
    assert_eq!((w.before_seq, w.limit, w.scan_limit), (77, 50, 250));
    let w = merge_back_window(None, 10_000);
    assert_eq!((w.limit, w.scan_limit), (200, 1000));
}

#[test]
fn merge_keys() {
    assert_eq!(node_merge_key("feat", 12, "n1"), "graph_merge:feat:12:node:n1");
    let key = edge_key_string("a", "supports", "b");
    assert_eq!(key, "a|supports|b");
    assert_eq!(edge_merge_key("feat", 3, &key), "graph_merge:feat:3:edge:a|supports|b");
}

#[test]
fn merge_state_counts_and_limit() {
    let mut s = MergeBackState::new();
    assert!(!s.reached_limit(2));
    s.record_skip();
    s.record_change(true, 3);
    s.record_fast_forward(true);
    assert_eq!((s.merged, s.skipped), (1, 1));
    assert!(s.reached_limit(2));
    s.record_change(false, 1);
    s.record_fast_forward(false);
    assert_eq!(s.skipped, 2);
    assert_eq!(
        (s.diff_summary.nodes_changed, s.diff_summary.node_fields_changed, s.diff_summary.edges_changed, s.diff_summary.edge_fields_changed),
        (1, 3, 1, 1)
    );
    let detail = GraphConflictDetail {
        conflict_id: "CONFLICT-1".to_string(),
        kind: "node".to_string(),
        key: "n".to_string(),
        from_branch: "f".to_string(),
        into_branch: "m".to_string(),
        doc: "g".to_string(),
        status: "open".to_string(),
        created_at_ms: 0,
        resolved_at_ms: None,
        base_node: None,
        theirs_node: None,
        ours_node: None,
        base_edge: None,
        theirs_edge: None,
        ours_edge: None,
    };
    s.record_conflict(detail, true);
    assert_eq!((s.conflicts_detected, s.conflicts_created), (1, 1));
    assert_eq!(s.conflict_ids, vec!["CONFLICT-1".to_string()]);
    assert_eq!(s.conflicts.len(), 1);
    assert!(s.reached_limit(4));
}

#[test]
fn page_end_gives_cursor_of_last_processed() {
    assert_eq!(page_end(&[9, 8, 7], 2), (true, Some(8)));
    assert_eq!(page_end(&[9, 8, 7], 3), (false, None));
    assert_eq!(page_end(&[9], 0), (true, Some(9)));
}

#[test]
fn interleave_newest_first_nodes_on_ties() {
    assert_eq!(interleave_by_seq(&[9, 5, 1], &[7, 5], 10), vec![true, false, true, false, true]);
    assert_eq!(interleave_by_seq(&[9, 5, 1], &[7, 5], 2), vec![true, false]);
    assert_eq!(interleave_by_seq(&[], &[3], 5), vec![false]);
}

#[test]
fn apply_request_and_operation_checks() {
    let ops = vec![GraphOp::NodeDelete { id: "n".to_string() }];
    assert_eq!(invalid(check_apply_request("", "g", &ops)), "branch must not be empty");
    assert_eq!(invalid(check_apply_request("b", " ", &ops)), "doc must not be empty");
    assert_eq!(invalid(check_apply_request("b", "g", &[])), "ops must not be empty");
    assert!(check_apply_request("b", "g", &ops).is_ok());

    let mut gone = node("n", "t");
    gone.deleted = true;
    assert_eq!(invalid(check_node_delete(&None)), "node not found");
    assert_eq!(invalid(check_node_delete(&Some(gone.clone()))), "node already deleted");
    assert!(check_node_delete(&Some(node("n", "t"))).is_ok());

    assert_eq!(invalid(check_edge_endpoints(&None, &None)), "edge.from node not found");
    assert_eq!(invalid(check_edge_endpoints(&Some(gone.clone()), &None)), "edge.from node is deleted");
    assert_eq!(invalid(check_edge_endpoints(&Some(node("a", "t")), &None)), "edge.to node not found");
    assert_eq!(invalid(check_edge_endpoints(&Some(node("a", "t")), &Some(gone))), "edge.to node is deleted");
    assert!(check_edge_endpoints(&Some(node("a", "t")), &Some(node("b", "t"))).is_ok());

    let mut dead = edge("a", "b");
    dead.deleted = true;
    assert_eq!(invalid(check_edge_delete(&None)), "edge not found");
    assert_eq!(invalid(check_edge_delete(&Some(dead))), "edge already deleted");
    assert!(check_edge_delete(&Some(edge("a", "b"))).is_ok());
}

#[test]
fn apply_result_counts_operations() {
    let mut r = GraphApplyResult::new(500);
    r.record(&GraphOp::NodeDelete { id: "n".to_string() }, 7, 2);
    r.record(&GraphOp::EdgeDelete { from: "a".to_string(), rel: "r".to_string(), to: "b".to_string() }, 8, 0);
    assert_eq!((r.nodes_deleted, r.edges_deleted, r.nodes_upserted, r.edges_upserted), (1, 3, 0, 0));
    assert_eq!((r.last_seq, r.last_ts_ms), (8, 500));
}

fn conflict_row(kind: &str) -> GraphConflictDetailRow {
    GraphConflictDetailRow {
        kind: kind.to_string(),
        key: "n1".to_string(),
        from_branch: "feat".to_string(),
        into_branch: "main".to_string(),
        doc: "graph".to_string(),
        status: "open".to_string(),
        created_at_ms: 11,
        resolved_at_ms: None,
        base_seq: Some(0),
        base_ts_ms: None,
        base_deleted: Some(0),
        base_node_type: None,
        base_title: Some("b".to_string()),
        base_text: None,
        base_tags: Some("\nx\n".to_string()),
        base_status: None,
        base_meta_json: None,
        base_from_id: Some("a".to_string()),
        base_rel: Some("r".to_string()),
        base_to_id: None,
        base_edge_meta_json: None,
        theirs_seq: Some(5),
        theirs_ts_ms: Some(6),
        theirs_deleted: Some(1),
        theirs_node_type: Some("idea".to_string()),
        theirs_title: None,
        theirs_text: Some("t".to_string()),
        theirs_tags: None,
        theirs_status: None,
        theirs_meta_json: None,
        theirs_from_id: Some("a".to_string()),
        theirs_rel: Some("r".to_string()),
        theirs_to_id: Some("b".to_string()),
        theirs_edge_meta_json: Some("{}".to_string()),
        ours_seq: Some(0),
        ours_ts_ms: None,
        ours_deleted: None,
        ours_node_type: None,
        ours_title: None,
        ours_text: None,
        ours_tags: None,
        ours_status: None,
        ours_meta_json: None,
        ours_from_id: None,
        ours_rel: None,
        ours_to_id: None,
        ours_edge_meta_json: None,
    }
}

#[test]
fn conflict_detail_of_a_node_conflict() {
    let d = conflict_row("node").into_detail("CONFLICT-x");
    assert_eq!(d.conflict_id, "CONFLICT-x");
    assert_eq!((d.kind.as_str(), d.key.as_str(), d.status.as_str(), d.created_at_ms), ("node", "n1", "open", 11));
    let base = d.base_node.expect("base present when its seq is known");
    assert_eq!((base.id.as_str(), base.node_type.as_str(), base.last_seq, base.last_ts_ms, base.deleted), ("n1", "", 0, 0, false));
    assert_eq!(base.tags, vec!["x".to_string()]);
    let theirs = d.theirs_node.expect("theirs present");
    assert_eq!((theirs.node_type.as_str(), theirs.last_seq, theirs.last_ts_ms, theirs.deleted), ("idea", 5, 6, true));
    assert!(d.ours_node.is_none());
    assert!(d.base_edge.is_none() && d.theirs_edge.is_none() && d.ours_edge.is_none());
}

#[test]
fn conflict_detail_of_an_edge_conflict() {
    let d = conflict_row("edge").into_detail("C");
    assert!(d.base_node.is_none() && d.theirs_node.is_none());
    assert!(d.base_edge.is_none(), "base edge lacks its target");
    let theirs = d.theirs_edge.expect("theirs edge present");
    assert_eq!((theirs.from.as_str(), theirs.rel.as_str(), theirs.to.as_str()), ("a", "r", "b"));
    assert_eq!(theirs.meta_json.as_deref(), Some("{}"));
    assert!(d.ours_edge.is_none());
}

#[test]
fn resolving_conflicts() {
    assert_eq!(invalid(check_resolution("  ")), "resolution must not be empty");
    assert!(check_resolution("use_from").is_ok());
    assert_eq!(resolve_source_event_id("C-1"), "graph_conflict_resolve:C-1");

    let open = conflict_row("node").into_detail("C");
    assert!(matches!(plan_conflict_resolution(&open, "use_into"), Ok(ConflictPlan::UseInto)));
    match plan_conflict_resolution(&open, "use_from") {
        Ok(ConflictPlan::ApplyTheirs(GraphOp::NodeUpsert(u))) => {
            assert_eq!((u.id.as_str(), u.node_type.as_str(), u.text.as_deref()), ("n1", "idea", Some("t")));
        }
        _ => panic!("expected node upsert"),
    }
    assert!(matches!(
        plan_conflict_resolution(&open, "keep"),
        Err(StoreError::InvalidInput("resolution must be use_from|use_into"))
    ));
    let mut done = conflict_row("node").into_detail("C");
    done.status = "resolved".to_string();
    assert!(matches!(plan_conflict_resolution(&done, "use_into"), Err(StoreError::ConflictAlreadyResolved)));
    let mut odd = conflict_row("edge").into_detail("C");
    odd.theirs_edge = None;
    assert!(matches!(
        plan_conflict_resolution(&odd, "use_from"),
        Err(StoreError::InvalidInput("conflict has no theirs edge snapshot"))
    ));
    let strange = conflict_row("blob").into_detail("C");
    assert!(matches!(
        plan_conflict_resolution(&strange, "use_from"),
        Err(StoreError::InvalidInput("unknown conflict kind"))
    ));
    let mut no_node = conflict_row("node").into_detail("C");
    no_node.theirs_node = None;
    assert!(matches!(
        plan_conflict_resolution(&no_node, "use_from"),
        Err(StoreError::InvalidInput("conflict has no theirs node snapshot"))
    ));
}
