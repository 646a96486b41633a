use ragchat::distill::last_3_relevant_qa_pairs;
use ragchat::identity::conversation_id;
use ragchat::retrieval::{merge_hits, SearchHit};
use ragchat::settings::ContentSettings;
use ragchat::turn::{classify_turn, compose_turn, control_finish, corpus_queries, finish_turn,
    apply_primary_search_policy, hits_or_empty, history_query, is_new_command, next_ephemeral_id,
    no_context_finish, plan_retrieval, restart_request, Composition, PrimarySearch, RetrievalPlan,
    SearchOutcome, TurnKind};

fn settings() -> ContentSettings {
    ContentSettings::new(
        "You are a Kubernetes assistant.".to_string(),
        "You are a Kubernetes assistant.".to_string(),
        "Answer briefly.".to_string(),
        "Something went wrong.".to_string(),
        "No answer".to_string(),
        "kubernetes_book".to_string(),
    )
}

fn hit(id: u64, text: &str, above: bool) -> SearchHit {
    SearchHit { id, text: text.to_string(), above_threshold: above }
}

#[test]
fn control_token_matches_case_insensitively_after_trim() {
    assert!(is_new_command("/new"));
    assert!(is_new_command("/NEW"));
    assert!(is_new_command("  /New \n"));
    assert!(!is_new_command("new"));
    assert!(!is_new_command("/newer"));
    assert!(!is_new_command(""));
}

#[test]
fn explicit_restart_arms_flag_without_completion() {
    // A control message arms the restart flag and acknowledges with an
    // empty body; no completion request exists on this path.
    assert_eq!(classify_turn("/new", false), TurnKind::Control);
    let fin = control_finish();
    assert_eq!(fin.response, "");
    assert_eq!(fin.store_flag, Some(true));
    assert!(fin.upsert.is_none());
}

#[test]
fn two_control_turns_leave_flag_armed() {
    let first = control_finish();
    let flag_after_first = first.store_flag.unwrap();
    assert!(flag_after_first);
    // The second `/new` arrives with the flag already armed and is still a
    // control turn; it stores `true` again.
    assert_eq!(classify_turn("/new", flag_after_first), TurnKind::Control);
    let second = control_finish();
    assert_eq!(second.store_flag, Some(true));
}

#[test]
fn post_restart_turn_completes_and_clears_flag() {
    let cs = settings();
    assert_eq!(classify_turn("Tell me about deployments.", true), TurnKind::Restart);
    let req = restart_request(&cs);
    assert_eq!(req.system_prompt, cs.initial_system_prompt);
    assert_eq!(req.user_prompt, "");
    assert_eq!(req.post_prompt, "Answer briefly.");
    assert!(req.restart);
    assert_eq!(req.token_limit, 2048);
    let fin = finish_turn(&cs, "Tell me about deployments.", Some("Deployments manage replicas.".to_string()), true);
    assert_eq!(fin.response, "Deployments manage replicas.");
    assert_eq!(fin.store_flag, Some(false));
    assert_eq!(
        fin.upsert.unwrap(),
        "Tell me about deployments.\n Deployments manage replicas."
    );
}

#[test]
fn failed_completion_keeps_flag_and_reports_error() {
    let cs = settings();
    let fin = finish_turn(&cs, "Tell me about deployments.", None, true);
    assert_eq!(fin.response, "Something went wrong.");
    assert!(fin.store_flag.is_none());
    assert!(fin.upsert.is_none());
}

#[test]
fn off_topic_question_skips_corpus_and_replaces_system_prompt() {
    let cs = settings();
    let q = "What's the weather today?";
    assert_eq!(classify_turn(q, false), TurnKind::Retrieval);
    let plan = plan_retrieval(q, false);
    assert!(matches!(plan, RetrievalPlan::OffTopic));
    let queries = corpus_queries(&plan, q, "");
    assert!(queries.is_empty());
    let distilled = "User asked before.";
    let comp = compose_turn(&cs, q, false, &Vec::new(), distilled, 30000);
    match comp {
        Composition::Ask(req) => {
            assert_eq!(
                req.system_prompt,
                "You're a question and answer bot.User asked before."
            );
            assert!(!req.user_prompt.contains("Given the context"));
            assert_eq!(
                req.user_prompt,
                "Here is the question you're to reply now: `What's the weather today?`. \
                 Please provide a concise answer."
            );
            assert!(!req.restart);
        }
        Composition::NoContext => panic!("off-topic turn with history should ask"),
    }
}

#[test]
fn fresh_on_topic_query_runs_the_full_path() {
    let cs = settings();
    let q = "What is a Kubernetes Pod?";
    assert_eq!(conversation_id("user@42"), "user-42");
    assert_eq!(classify_turn(q, false), TurnKind::Retrieval);
    let plan = plan_retrieval(q, true);
    let hypo_answer = match &plan {
        RetrievalPlan::OnTopic { hypothetical } => {
            assert!(hypothetical.user_prompt.contains("`What is a Kubernetes Pod?`"));
            assert_eq!(hypothetical.max_tokens, 128);
            assert!(hypothetical.restart);
            "A Pod is the smallest deployable unit.".to_string()
        }
        RetrievalPlan::OffTopic => panic!("on-topic turn must carry a hypothetical request"),
    };
    let queries = corpus_queries(&plan, q, &hypo_answer);
    assert_eq!(queries.len(), 2);
    assert_eq!(queries[0], q);
    assert_eq!(queries[1], hypo_answer);

    let raw = match apply_primary_search_policy(SearchOutcome::Hits(vec![hit(1, "Pods share a network namespace.", true)]), &cs) {
        PrimarySearch::Proceed(h) => h,
        PrimarySearch::Abort(_) => panic!("hits must proceed"),
    };
    let hypo_hits = hits_or_empty(SearchOutcome::Hits(vec![hit(2, "A Pod wraps containers.", true)]));
    let passages = merge_hits(&raw, &hypo_hits);
    let recall_query = history_query(true, q, &hypo_answer);
    assert_eq!(recall_query, hypo_answer);
    let distilled = last_3_relevant_qa_pairs(&Vec::new());
    let comp = compose_turn(&cs, q, true, &passages, &distilled, 30000);
    match comp {
        Composition::Ask(req) => {
            assert_eq!(
                req.system_prompt,
                "You are a Kubernetes assistant.\nPods share a network namespace.\nA Pod wraps containers."
            );
            assert_eq!(
                req.user_prompt,
                "Given the context: `Pods share a network namespace.\nA Pod wraps containers.`. \
                 Here is the question you're to reply now: `What is a Kubernetes Pod?`. \
                 Please provide a concise answer, stay truthful and factual."
            );
            assert_eq!(req.token_limit, 2048);
            let fin = finish_turn(&cs, q, Some("It is the smallest unit.".to_string()), false);
            assert_eq!(fin.response, "It is the smallest unit.");
            assert!(fin.store_flag.is_none());
            assert_eq!(
                fin.upsert.unwrap(),
                "What is a Kubernetes Pod?\n It is the smallest unit."
            );
        }
        Composition::NoContext => panic!("a turn with passages has context"),
    }
}

#[test]
fn empty_hypothetical_answer_skips_secondary_retrieval() {
    let plan = plan_retrieval("What is a Pod?", true);
    let queries = corpus_queries(&plan, "What is a Pod?", "");
    assert_eq!(queries.len(), 1);
    assert_eq!(queries[0], "What is a Pod?");
}

#[test]
fn embedding_failure_answers_with_no_answer_message() {
    let cs = settings();
    match apply_primary_search_policy(SearchOutcome::EmbedFailed, &cs) {
        PrimarySearch::Abort(fin) => {
            assert_eq!(fin.response, "No answer");
            assert!(fin.store_flag.is_none());
            assert!(fin.upsert.is_none());
        }
        PrimarySearch::Proceed(_) => panic!("an embedding failure must abort the turn"),
    }
}

#[test]
fn turn_without_any_context_answers_no_answer_without_completion() {
    let cs = settings();
    // No history and no passage above the threshold: the composed system
    // prompt equals the configured one, so no completion request is built.
    let comp = compose_turn(&cs, "What is a Pod?", true, &Vec::new(), "", 30000);
    assert!(matches!(comp, Composition::NoContext));
    let fin = no_context_finish(&cs);
    assert_eq!(fin.response, "No answer");
    assert!(fin.store_flag.is_none());
    assert!(fin.upsert.is_none());
}

#[test]
fn off_topic_recall_queries_with_the_question() {
    assert_eq!(history_query(false, "the question", "hypo"), "the question");
}

#[test]
fn failed_searches_contribute_no_hits() {
    assert!(hits_or_empty(SearchOutcome::EmbedFailed).is_empty());
}

#[test]
fn ephemeral_ids_grow_from_the_point_count() {
    assert_eq!(next_ephemeral_id(0), 1);
    assert_eq!(next_ephemeral_id(41), 42);
}
