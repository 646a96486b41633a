use ragchat::retrieval::{filter_hits, get_rag_content, join_passages, merge_hits, Passage,
    SearchHit};

fn hit(id: u64, text: &str, above: bool) -> SearchHit {
    SearchHit { id, text: text.to_string(), above_threshold: above }
}

#[test]
fn below_threshold_hits_are_dropped() {
    let raw = vec![hit(1, "keep", true), hit(2, "drop", false), hit(3, "keep2", true)];
    let hypo = vec![hit(4, "drop2", false)];
    let content = get_rag_content(&raw, &hypo);
    assert_eq!(content, "keep\nkeep2");
}

#[test]
fn dedup_across_dual_retrieval() {
    // The same point surfaces for both queries with different payloads: the
    // hypothetical answer's text wins and appears exactly once.
    let raw = vec![hit(7, "A", true)];
    let hypo = vec![hit(7, "A'", true)];
    let content = get_rag_content(&raw, &hypo);
    assert_eq!(content, "A'");
}

#[test]
fn merge_keeps_first_occurrence_order() {
    let raw = vec![hit(1, "x", true), hit(2, "y", true)];
    let hypo = vec![hit(3, "z", true), hit(1, "x2", true)];
    let merged = merge_hits(&raw, &hypo);
    let ids: Vec<u64> = merged.iter().map(|p| p.id).collect();
    assert_eq!(ids, vec![1, 2, 3]);
    let texts: Vec<&str> = merged.iter().map(|p| p.text.as_str()).collect();
    assert_eq!(texts, vec!["x2", "y", "z"]);
}

#[test]
fn empty_searches_give_empty_content() {
    let content = get_rag_content(&Vec::new(), &Vec::new());
    assert_eq!(content, "");
}

#[test]
fn filter_preserves_hit_order() {
    let hits = vec![hit(9, "c", true), hit(4, "a", false), hit(2, "b", true)];
    let ps = filter_hits(&hits);
    let ids: Vec<u64> = ps.iter().map(|p| p.id).collect();
    assert_eq!(ids, vec![9, 2]);
}

#[test]
fn join_inserts_single_newlines() {
    let ps = vec![
        Passage { id: 1, text: "one".to_string() },
        Passage { id: 2, text: "two".to_string() },
        Passage { id: 3, text: "three".to_string() },
    ];
    assert_eq!(join_passages(&ps), "one\ntwo\nthree");
}
