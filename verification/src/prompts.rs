//! Prompt texts: the fixed persona and template strings, the user-prompt
//! templates of the two retrieval outcomes, the soft-capped composition of
//! the working system prompt, and the question/answer record kept for
//! short-term recall.

use vstd::prelude::*;
use vstd::string::StrSliceExecFns;
use vstd::string::StringExecFns;

use crate::retrieval::Passage;
use crate::text::{contains_str, first_x_chars, is_substring};

verus! {

/// The domain anchor the similarity oracle compares each question against.
pub open spec fn domain_anchor_spec() -> Seq<char> {
    "This source material is a technical book on Kubernetes."@
}

pub fn domain_anchor() -> (r: String)
    ensures
        r@ == domain_anchor_spec(),
{
    "This source material is a technical book on Kubernetes.".to_owned()
}

/// The system prompt that replaces the configured one on the off-topic path.
pub open spec fn off_topic_system_base_spec() -> Seq<char> {
    "You're a question and answer bot."@
}

pub fn off_topic_system_base() -> (r: String)
    ensures
        r@ == off_topic_system_base_spec(),
{
    "You're a question and answer bot.".to_owned()
}

/// The user prompt of an on-topic turn, quoting the retrieval context and
/// the question.
pub open spec fn on_topic_user_prompt_spec(rag: Seq<char>, q: Seq<char>) -> Seq<char> {
    "Given the context: `"@ + rag + "`. Here is the question you're to reply now: `"@ + q
        + "`. Please provide a concise answer, stay truthful and factual."@
}

pub fn on_topic_user_prompt(rag: &str, q: &str) -> (r: String)
    ensures
        r@ == on_topic_user_prompt_spec(rag@, q@),
{
    let mut s = "Given the context: `".to_owned();
    s.append(rag);
    s.append("`. Here is the question you're to reply now: `");
    s.append(q);
    s.append("`. Please provide a concise answer, stay truthful and factual.");
    proof {
        assert(s@ =~= on_topic_user_prompt_spec(rag@, q@));
    }
    s
}

/// The user prompt of an off-topic turn: the question alone, no context.
pub open spec fn off_topic_user_prompt_spec(q: Seq<char>) -> Seq<char> {
    "Here is the question you're to reply now: `"@ + q + "`. Please provide a concise answer."@
}

pub fn off_topic_user_prompt(q: &str) -> (r: String)
    ensures
        r@ == off_topic_user_prompt_spec(q@),
{
    let mut s = "Here is the question you're to reply now: `".to_owned();
    s.append(q);
    s.append("`. Please provide a concise answer.");
    proof {
        assert(s@ =~= off_topic_user_prompt_spec(q@));
    }
    s
}

/// The generalist persona of the hypothetical answerer.
pub open spec fn hypothetical_system_prompt_spec() -> Seq<char> {
    "You're an assistant bot with expertise in all domains of human knowledge."@
}

/// The hypothetical answerer's user prompt, quoting the question.
pub open spec fn hypothetical_user_prompt_spec(q: Seq<char>) -> Seq<char> {
    "You're preparing to answer questions about a specific source material, before ingesting the source material, you need to answer the question based on the knowledge you're trained on, here it is: `"@
        + q
        + "`, please provide a concise answer in one paragraph, stay truthful and factual."@
}

/// One request to the hypothetical answerer: a one-shot completion from
/// model priors, capped at 128 tokens, outside any conversation history.
pub struct HypotheticalRequest {
    pub system_prompt: String,
    pub user_prompt: String,
    pub max_tokens: u64,
    pub restart: bool,
}

pub fn hypothetical_request(question: &str) -> (r: HypotheticalRequest)
    ensures
        r.system_prompt@ == hypothetical_system_prompt_spec(),
        r.user_prompt@ == hypothetical_user_prompt_spec(question@),
        r.max_tokens == 128,
        r.restart,
{
    let system_prompt =
        "You're an assistant bot with expertise in all domains of human knowledge.".to_owned();
    let mut user_prompt =
        "You're preparing to answer questions about a specific source material, before ingesting the source material, you need to answer the question based on the knowledge you're trained on, here it is: `".to_owned();
    user_prompt.append(question);
    user_prompt.append("`, please provide a concise answer in one paragraph, stay truthful and factual.");
    proof {
        assert(user_prompt@ =~= hypothetical_user_prompt_spec(question@));
    }
    HypotheticalRequest { system_prompt, user_prompt, max_tokens: 128, restart: true }
}

/// One step of the soft-capped composition: the passage text is appended
/// behind a newline while the working prompt is within the cap and does not
/// already contain the text verbatim.
pub open spec fn compose_step(w: Seq<char>, text: Seq<char>, cap: nat) -> Seq<char> {
    if w.len() <= cap && !is_substring(w, text) {
        w + "\n"@ + text
    } else {
        w
    }
}

pub open spec fn compose_acc(w: Seq<char>, texts: Seq<Seq<char>>, cap: nat) -> Seq<char>
    decreases texts.len(),
{
    if texts.len() == 0 {
        w
    } else {
        compose_acc(compose_step(w, texts[0], cap), texts.drop_first(), cap)
    }
}

/// The working system prompt of a turn: the base prompt, the distilled
/// recall block appended, then each retrieved passage accumulated under the
/// soft length cap with verbatim-duplicate suppression.
pub open spec fn composed_system_spec(
    base: Seq<char>,
    distilled: Seq<char>,
    texts: Seq<Seq<char>>,
    cap: nat,
) -> Seq<char> {
    compose_acc(base + distilled, texts, cap)
}

/// Compose the working system prompt from the configured base, the
/// distilled recall block, and the retrieved passages under the soft cap.
pub fn compose_system_prompt(base: &str, distilled: &str, passages: &Vec<Passage>, cap: usize) -> (r:
    String)
    ensures
        r@ == composed_system_spec(base@, distilled@, crate::retrieval::texts_of(passages@), cap as nat),
{
    let ghost texts = crate::retrieval::texts_of(passages@);
    let mut w = base.to_owned();
    w.append(distilled);
    let n = passages.len();
    let mut i: usize = 0;
    proof {
        assert(texts.skip(0) =~= texts);
    }
    while i < n
        invariant
            n == passages@.len(),
            i <= n,
            texts == crate::retrieval::texts_of(passages@),
            compose_acc(w@, texts.skip(i as int), cap as nat) == compose_acc(
                base@ + distilled@,
                texts,
                cap as nat,
            ),
        decreases n - i,
    {
        proof {
            assert(texts.skip(i as int)[0] == texts[i as int]);
            assert(texts.skip(i as int).drop_first() =~= texts.skip(i + 1));
        }
        let ghost w_before = w@;
        let wl = w.as_str().unicode_len();
        if wl <= cap && !contains_str(w.as_str(), passages[i].text.as_str()) {
            w.append("\n");
            w.append(passages[i].text.as_str());
            proof {
                assert(w@ =~= compose_step(w_before, texts[i as int], cap as nat));
            }
        }
        i = i + 1;
    }
    proof {
        assert(texts.skip(n as int) =~= Seq::<Seq<char>>::empty());
    }
    w
}

/// The record upserted into the ephemeral collection after a successful
/// completion: the question and the answer, newline-separated, truncated to
/// 1500 code points.
pub open spec fn qa_record_spec(q: Seq<char>, a: Seq<char>) -> Seq<char> {
    let t = q + "\n "@ + a;
    if t.len() <= 1500 {
        t
    } else {
        t.take(1500)
    }
}

pub fn qa_record(question: &str, answer: &str) -> (r: String)
    ensures
        r@ == qa_record_spec(question@, answer@),
{
    let mut s = question.to_owned();
    s.append("\n ");
    s.append(answer);
    proof {
        assert(s@ =~= question@ + "\n "@ + answer@);
    }
    first_x_chars(s.as_str(), 1500)
}

} // verus!
