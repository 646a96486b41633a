//! The turn controller: how one inbound message, together with the
//! conversation's restart flag and the answers of the outside services,
//! determines everything the turn does — which control action is stored,
//! which searches are issued, which prompts are composed, and what is sent
//! back.
//!
//! The driver around the library performs the outside calls (embedding,
//! vector search, completion, key-value store) and feeds their results back
//! in; every decision between two such calls is taken here.

use vstd::prelude::*;

use crate::prompts::{composed_system_spec, hypothetical_request, hypothetical_system_prompt_spec,
    hypothetical_user_prompt_spec, off_topic_system_base, off_topic_system_base_spec,
    off_topic_user_prompt, off_topic_user_prompt_spec, on_topic_user_prompt,
    on_topic_user_prompt_spec, qa_record, qa_record_spec, compose_system_prompt,
    HypotheticalRequest};
use crate::retrieval::{join_nl, texts_of, Passage, SearchHit};
use crate::settings::ContentSettings;
use crate::text::{eq_ignore_ascii_case, str_ieq, trim_ascii, trim_spec};

verus! {

/// The body is the reserved control token `/new`, compared without regard
/// to ASCII case after trimming surrounding whitespace.
pub open spec fn is_new_command_spec(body: Seq<char>) -> bool {
    str_ieq(trim_spec(body), "/new"@)
}

pub fn is_new_command(body: &str) -> (r: bool)
    ensures
        r == is_new_command_spec(body@),
{
    eq_ignore_ascii_case(trim_ascii(body), "/new")
}

/// The three kinds of turn: a control message arming the restart flag, a
/// turn entered with the flag armed, and the default retrieval turn.
#[derive(Clone, Copy, Debug, PartialEq, Eq, Structural)]
pub enum TurnKind {
    Control,
    Restart,
    Retrieval,
}

pub open spec fn turn_kind_spec(body: Seq<char>, armed: bool) -> TurnKind {
    if is_new_command_spec(body) {
        TurnKind::Control
    } else if armed {
        TurnKind::Restart
    } else {
        TurnKind::Retrieval
    }
}

/// Classify the turn from the inbound body and the stored restart flag.
pub fn classify_turn(body: &str, armed: bool) -> (r: TurnKind)
    ensures
        r == turn_kind_spec(body@, armed),
{
    if is_new_command(body) {
        TurnKind::Control
    } else if armed {
        TurnKind::Restart
    } else {
        TurnKind::Retrieval
    }
}

/// One completion request, fully determined before the call is made.
pub struct CompletionRequest {
    pub system_prompt: String,
    pub user_prompt: String,
    pub post_prompt: String,
    pub restart: bool,
    pub token_limit: u64,
}

/// The completion request of a restart-armed turn: the configured system
/// and post prompts verbatim, an empty user prompt, history restarted, the
/// standard token budget.
pub fn restart_request(cs: &ContentSettings) -> (r: CompletionRequest)
    ensures
        r.system_prompt@ == cs.system_prompt@,
        r.user_prompt@ == Seq::<char>::empty(),
        r.post_prompt@ == cs.post_prompt@,
        r.restart,
        r.token_limit == 2048,
{
    CompletionRequest {
        system_prompt: cs.system_prompt.clone(),
        user_prompt: String::new(),
        post_prompt: cs.post_prompt.clone(),
        restart: true,
        token_limit: 2048,
    }
}

/// The plan of a retrieval turn once the similarity oracle has spoken: an
/// on-topic turn generates a hypothetical answer and searches the corpus,
/// an off-topic turn does neither.
pub enum RetrievalPlan {
    OnTopic { hypothetical: HypotheticalRequest },
    OffTopic,
}

pub open spec fn plan_is_on_topic(p: RetrievalPlan) -> bool {
    p is OnTopic
}

/// Plan the retrieval turn from the oracle's verdict.
pub fn plan_retrieval(question: &str, on_topic: bool) -> (r: RetrievalPlan)
    ensures
        plan_is_on_topic(r) == on_topic,
        r matches RetrievalPlan::OnTopic { hypothetical } ==> hypothetical.system_prompt@
            == hypothetical_system_prompt_spec() && hypothetical.user_prompt@
            == hypothetical_user_prompt_spec(question@) && hypothetical.max_tokens == 128
            && hypothetical.restart,
{
    if on_topic {
        RetrievalPlan::OnTopic { hypothetical: hypothetical_request(question) }
    } else {
        RetrievalPlan::OffTopic
    }
}

/// The queries a turn sends to the corpus collection: none off topic; on
/// topic the raw question and, when the hypothetical answer is non-empty,
/// that answer second.  An empty hypothetical answer means the answerer
/// failed, and the secondary retrieval is skipped.
pub open spec fn corpus_queries_spec(plan_on_topic: bool, question: Seq<char>, hypo: Seq<char>) -> Seq<
    Seq<char>,
> {
    if !plan_on_topic {
        Seq::<Seq<char>>::empty()
    } else if hypo.len() == 0 {
        seq![question]
    } else {
        seq![question, hypo]
    }
}

pub fn corpus_queries(plan: &RetrievalPlan, question: &str, hypo: &str) -> (r: Vec<String>)
    ensures
        r@.map_values(|s: String| s@) == corpus_queries_spec(plan_is_on_topic(*plan), question@, hypo@),
{
    let mut out: Vec<String> = Vec::new();
    match plan {
        RetrievalPlan::OffTopic => {
            proof {
                assert(out@.map_values(|s: String| s@) =~= corpus_queries_spec(
                    false,
                    question@,
                    hypo@,
                ));
            }
        },
        RetrievalPlan::OnTopic { .. } => {
            out.push(question.to_owned());
            if hypo.unicode_len() > 0 {
                out.push(hypo.to_owned());
            }
            proof {
                assert(out@.map_values(|s: String| s@) =~= corpus_queries_spec(
                    true,
                    question@,
                    hypo@,
                ));
            }
        },
    }
    out
}

/// Off-topic path determinism: when the similarity oracle judges the
/// question off topic, the retrieval plan carries no hypothetical request
/// and the corpus collection receives no search query, whatever the
/// question or any hypothetical answer.
pub proof fn lemma_off_topic_path_determinism(
    plan: RetrievalPlan,
    question: Seq<char>,
    hypo: Seq<char>,
)
    requires
        !plan_is_on_topic(plan),
    ensures
        corpus_queries_spec(plan_is_on_topic(plan), question, hypo).len() == 0,
{
}

/// The query the recall distiller embeds: the hypothetical answer on the
/// on-topic path, the question itself otherwise.
pub fn history_query(on_topic: bool, question: &str, hypo: &str) -> (r: String)
    ensures
        on_topic ==> r@ == hypo@,
        !on_topic ==> r@ == question@,
{
    if on_topic {
        hypo.to_owned()
    } else {
        question.to_owned()
    }
}

/// What a vector search handed back: hits, or a failure to embed the query.
pub enum SearchOutcome {
    EmbedFailed,
    Hits(Vec<SearchHit>),
}

/// Everything the driver must still do when a turn ends without a
/// completion, or after one: the body to send back, the restart-flag write
/// (if any), and the record to upsert (if any).
pub struct TurnFinish {
    pub response: String,
    pub store_flag: Option<bool>,
    pub upsert: Option<String>,
}

/// The stored restart flag after one flag write.
pub open spec fn apply_store(before: bool, store: Option<bool>) -> bool {
    match store {
        Some(v) => v,
        None => before,
    }
}

/// The restart flag after a whole turn: armed by a control turn, cleared by
/// an armed turn whose completion succeeded, untouched otherwise.
pub open spec fn restart_flag_after(before: bool, control: bool, completed: bool) -> bool {
    control || (before && !completed)
}

/// The finish of a control turn: arm the restart flag, acknowledge with an
/// empty body; no completion is requested and nothing is upserted.
pub fn control_finish() -> (r: TurnFinish)
    ensures
        r.response@ == Seq::<char>::empty(),
        r.store_flag == Some(true),
        r.upsert is None,
        forall|before: bool| #[trigger] apply_store(before, r.store_flag),
{
    TurnFinish { response: String::new(), store_flag: Some(true), upsert: None }
}

/// How the primary-question retrieval ends: failing to embed the question
/// aborts the turn at once, hits let it proceed.
pub enum PrimarySearch {
    Abort(TurnFinish),
    Proceed(Vec<SearchHit>),
}

/// Apply the error policy of the primary-question retrieval: an embedding
/// failure answers with the configured no-answer message, leaves the
/// restart flag untouched, requests no completion and upserts nothing;
/// otherwise the turn proceeds with the hits.
pub fn apply_primary_search_policy(outcome: SearchOutcome, cs: &ContentSettings) -> (r: PrimarySearch)
    ensures
        outcome is EmbedFailed ==> (r matches PrimarySearch::Abort(f) && f.response@
            == cs.no_answer_mesg@ && f.store_flag is None && f.upsert is None),
        outcome matches SearchOutcome::Hits(h) ==> (r matches PrimarySearch::Proceed(h2) && h2
            == h),
{
    match outcome {
        SearchOutcome::EmbedFailed => PrimarySearch::Abort(
            TurnFinish {
                response: cs.no_answer_mesg.clone(),
                store_flag: None,
                upsert: None,
            },
        ),
        SearchOutcome::Hits(h) => PrimarySearch::Proceed(h),
    }
}

/// The hits of a secondary or recall search; a search that failed (or was
/// skipped) contributes no hits, and the turn goes on with whatever was
/// accumulated.
pub fn hits_or_empty(outcome: SearchOutcome) -> (r: Vec<SearchHit>)
    ensures
        outcome matches SearchOutcome::Hits(h) ==> r == h,
        outcome is EmbedFailed ==> r@.len() == 0,
{
    match outcome {
        SearchOutcome::EmbedFailed => Vec::new(),
        SearchOutcome::Hits(h) => h,
    }
}

/// The working system prompt of a retrieval turn: on topic, the configured
/// prompt extended with the distilled recall block and the retrieved
/// passages under the soft cap; off topic, the fixed question-and-answer
/// persona extended with the recall block.
pub open spec fn working_system_spec(
    base: Seq<char>,
    on_topic: bool,
    distilled: Seq<char>,
    texts: Seq<Seq<char>>,
    cap: nat,
) -> Seq<char> {
    if on_topic {
        composed_system_spec(base, distilled, texts, cap)
    } else {
        off_topic_system_base_spec() + distilled
    }
}

/// The outcome of prompt composition: either the turn has no context beyond
/// the configured prompt and is answered without any completion, or a fully
/// determined completion request.
pub enum Composition {
    NoContext,
    Ask(CompletionRequest),
}

/// Compose the prompts of a retrieval turn.
///
/// No-context fallback: the result is `NoContext` exactly when the composed
/// working system prompt is byte-identical to the configured system prompt;
/// only the other case carries a completion request, so such a turn never
/// reaches the completion service.
pub fn compose_turn(
    cs: &ContentSettings,
    question: &str,
    on_topic: bool,
    passages: &Vec<Passage>,
    distilled: &str,
    cap: usize,
) -> (r: Composition)
    ensures
        (working_system_spec(
            cs.system_prompt@,
            on_topic,
            distilled@,
            texts_of(passages@),
            cap as nat,
        ) == cs.system_prompt@) <==> (r is NoContext),
        r matches Composition::Ask(req) ==> req.system_prompt@ == working_system_spec(
            cs.system_prompt@,
            on_topic,
            distilled@,
            texts_of(passages@),
            cap as nat,
        ),
        r matches Composition::Ask(req) ==> req.user_prompt@ == (if on_topic {
            on_topic_user_prompt_spec(join_nl(texts_of(passages@)), question@)
        } else {
            off_topic_user_prompt_spec(question@)
        }),
        r matches Composition::Ask(req) ==> req.post_prompt@ == cs.post_prompt@ && !req.restart
            && req.token_limit == 2048,
{
    let working = if on_topic {
        compose_system_prompt(cs.system_prompt.as_str(), distilled, passages, cap)
    } else {
        let mut w = off_topic_system_base();
        w.append(distilled);
        w
    };
    if working == cs.system_prompt {
        Composition::NoContext
    } else {
        let user_prompt = if on_topic {
            let rag = crate::retrieval::join_passages(passages);
            on_topic_user_prompt(rag.as_str(), question)
        } else {
            off_topic_user_prompt(question)
        };
        Composition::Ask(
            CompletionRequest {
                system_prompt: working,
                user_prompt,
                post_prompt: cs.post_prompt.clone(),
                restart: false,
                token_limit: 2048,
            },
        )
    }
}

/// The finish of a no-context turn: answer with the configured no-answer
/// message; the restart flag is untouched and nothing is upserted.
pub fn no_context_finish(cs: &ContentSettings) -> (r: TurnFinish)
    ensures
        r.response@ == cs.no_answer_mesg@,
        r.store_flag is None,
        r.upsert is None,
        forall|before: bool| #[trigger] apply_store(before, r.store_flag) == before,
{
    TurnFinish { response: cs.no_answer_mesg.clone(), store_flag: None, upsert: None }
}

/// Finish a turn whose completion was attempted.  On success the answer is
/// sent back, the question/answer record is queued for upsert, and an armed
/// flag is cleared; on failure the configured error message is sent, the
/// flag keeps its value, and nothing is upserted.
pub fn finish_turn(
    cs: &ContentSettings,
    question: &str,
    completion: Option<String>,
    armed: bool,
) -> (r: TurnFinish)
    ensures
        completion matches Some(c) ==> r.response == c,
        completion matches Some(c) ==> r.upsert matches Some(u) && u@ == qa_record_spec(
            question@,
            c@,
        ),
        completion is Some ==> r.store_flag == (if armed {
            Some(false)
        } else {
            None::<bool>
        }),
        completion is None ==> r.response@ == cs.error_mesg@ && r.upsert is None
            && r.store_flag is None,
        apply_store(armed, r.store_flag) == restart_flag_after(armed, false, completion is Some),
{
    match completion {
        Some(c) => {
            let record = qa_record(question, c.as_str());
            TurnFinish {
                response: c,
                store_flag: if armed {
                    Some(false)
                } else {
                    None
                },
                upsert: Some(record),
            }
        },
        None => TurnFinish {
            response: cs.error_mesg.clone(),
            store_flag: None,
            upsert: None,
        },
    }
}

/// Control idempotence: a control turn arms the restart flag whatever it
/// held before, so two control turns in sequence leave it armed; control
/// turns build no completion request (`control_finish` carries none).
pub proof fn lemma_control_idempotence(before: bool, completed1: bool, completed2: bool)
    ensures
        restart_flag_after(restart_flag_after(before, true, completed1), true, completed2),
{
}

/// Restart bracketing: once a control turn arms the flag, any following
/// non-control turn whose completion succeeds leaves the flag cleared.
pub proof fn lemma_restart_bracketing(before: bool, completed1: bool)
    ensures
        !restart_flag_after(restart_flag_after(before, true, completed1), false, true),
{
}

/// The id of the next record upserted into the ephemeral collection: one
/// past the collection's current point count.
pub fn next_ephemeral_id(points_count: u64) -> (r: u64)
    requires
        points_count < u64::MAX,
    ensures
        r == points_count + 1,
{
    points_count + 1
}

} // verus!
