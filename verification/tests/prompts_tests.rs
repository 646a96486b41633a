use ragchat::prompts::{compose_system_prompt, domain_anchor, hypothetical_request,
    off_topic_system_base, off_topic_user_prompt, on_topic_user_prompt, qa_record};
use ragchat::retrieval::Passage;

fn passage(id: u64, text: &str) -> Passage {
    Passage { id, text: text.to_string() }
}

#[test]
fn on_topic_template_is_exact() {
    assert_eq!(
        on_topic_user_prompt("CTX", "What is a Pod?"),
        "Given the context: `CTX`. Here is the question you're to reply now: `What is a Pod?`. \
         Please provide a concise answer, stay truthful and factual."
    );
}

#[test]
fn off_topic_template_is_exact() {
    assert_eq!(
        off_topic_user_prompt("What's the weather today?"),
        "Here is the question you're to reply now: `What's the weather today?`. \
         Please provide a concise answer."
    );
}

#[test]
fn off_topic_system_base_is_exact() {
    assert_eq!(off_topic_system_base(), "You're a question and answer bot.");
}

#[test]
fn anchor_names_the_domain() {
    assert_eq!(
        domain_anchor(),
        "This source material is a technical book on Kubernetes."
    );
}

#[test]
fn hypothetical_request_is_one_shot_and_capped() {
    let req = hypothetical_request("What is a Pod?");
    assert_eq!(
        req.system_prompt,
        "You're an assistant bot with expertise in all domains of human knowledge."
    );
    assert!(req.user_prompt.contains("`What is a Pod?`"));
    assert!(req.user_prompt.starts_with("You're preparing to answer questions"));
    assert_eq!(req.max_tokens, 128);
    assert!(req.restart);
}

#[test]
fn qa_record_joins_question_and_answer() {
    assert_eq!(qa_record("Q", "A"), "Q\n A");
}

#[test]
fn qa_record_truncates_to_1500_code_points() {
    let q = "q".repeat(1000);
    let a = "a".repeat(1000);
    let rec = qa_record(&q, &a);
    assert_eq!(rec.chars().count(), 1500);
    assert!(rec.starts_with(&q));
}

#[test]
fn compose_appends_history_and_passages() {
    let composed = compose_system_prompt("BASE.", " HIST.", &vec![passage(1, "P1")], 30000);
    assert_eq!(composed, "BASE. HIST.\nP1");
}

#[test]
fn compose_suppresses_verbatim_duplicates() {
    let composed = compose_system_prompt(
        "BASE.",
        "",
        &vec![passage(1, "P1"), passage(2, "P1"), passage(3, "P2")],
        30000,
    );
    assert_eq!(composed, "BASE.\nP1\nP2");
}

#[test]
fn compose_stops_appending_beyond_the_cap() {
    // The cap is checked before each append: the working prompt of 5 code
    // points exceeds a cap of 4, so no passage is admitted.
    let composed = compose_system_prompt("BASE.", "", &vec![passage(1, "P1")], 4);
    assert_eq!(composed, "BASE.");
}
