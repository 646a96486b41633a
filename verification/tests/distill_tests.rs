use ragchat::distill::{last_3_relevant_qa_pairs, sort_passages_by_id};
use ragchat::retrieval::{Passage, SearchHit};

fn hit(id: u64, text: &str, above: bool) -> SearchHit {
    SearchHit { id, text: text.to_string(), above_threshold: above }
}

#[test]
fn recall_is_ordered_by_id_and_capped_at_three() {
    let hits = vec![
        hit(5, "e", true),
        hit(2, "b", true),
        hit(9, "i", true),
        hit(1, "a", true),
    ];
    assert_eq!(last_3_relevant_qa_pairs(&hits), "a\nb\ne");
}

#[test]
fn recall_drops_irrelevant_hits() {
    let hits = vec![hit(3, "x", false), hit(1, "y", true)];
    assert_eq!(last_3_relevant_qa_pairs(&hits), "y");
}

#[test]
fn recall_of_no_hits_is_empty() {
    assert_eq!(last_3_relevant_qa_pairs(&Vec::new()), "");
}

#[test]
fn sort_is_stable_for_equal_ids() {
    let ps = vec![
        Passage { id: 2, text: "first".to_string() },
        Passage { id: 2, text: "second".to_string() },
        Passage { id: 1, text: "zero".to_string() },
    ];
    let sorted = sort_passages_by_id(&ps);
    let texts: Vec<&str> = sorted.iter().map(|p| p.text.as_str()).collect();
    assert_eq!(texts, vec!["zero", "first", "second"]);
}
