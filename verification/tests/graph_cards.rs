use bm_storage::graph_cards::{card_links, GraphEdgeKey};

fn key(from: &str, rel: &str, to: &str) -> GraphEdgeKey {
    GraphEdgeKey {
        from: from.to_string(),
        rel: rel.to_string(),
        to: to.to_string(),
    }
}

#[test]
fn card_links_sorts_and_dedups_each_relation() {
    let keys = vec![
        key("CARD-1", "supports", "CARD-9"),
        key("CARD-1", "blocks", "CARD-4"),
        key("CARD-1", "supports", "CARD-2"),
        key("CARD-1", "supports", "CARD-9"),
        key("CARD-1", "blocks", "CARD-3"),
    ];
    let (supports, blocks) = card_links("CARD-1", &keys);
    assert_eq!(supports, vec!["CARD-2".to_string(), "CARD-9".to_string()]);
    assert_eq!(blocks, vec!["CARD-3".to_string(), "CARD-4".to_string()]);
}

#[test]
fn card_links_skips_incoming_edges_and_other_relations() {
    let keys = vec![
        key("CARD-7", "supports", "CARD-1"),
        key("CARD-1", "relates", "CARD-5"),
        key("CARD-1", "blocks", "CARD-6"),
        key("CARD-2", "blocks", "CARD-1"),
    ];
    let (supports, blocks) = card_links("CARD-1", &keys);
    assert!(supports.is_empty());
    assert_eq!(blocks, vec!["CARD-6".to_string()]);
}

#[test]
fn card_links_of_no_edges_is_empty() {
    let (supports, blocks) = card_links("CARD-1", &[]);
    assert!(supports.is_empty());
    assert!(blocks.is_empty());
}
