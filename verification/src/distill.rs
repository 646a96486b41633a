//! History distillation by short-term recall: the question (or the
//! hypothetical answer, on the on-topic path) is searched against the
//! ephemeral question/answer collection, and the relevant hits are ordered
//! by point id, capped at three, and joined into a block that is appended to
//! the working system prompt.

use vstd::prelude::*;

use crate::retrieval::{filter_hits, join_nl, join_passages, relevant_passages, texts_of, Passage,
    SearchHit};

verus! {

/// `p` placed into the id-ordered sequence `s`, after any passage with the
/// same id (a stable insertion).
pub open spec fn insert_by_id(s: Seq<Passage>, p: Passage) -> Seq<Passage>
    decreases s.len(),
{
    if s.len() == 0 {
        seq![p]
    } else if p.id < s[0].id {
        seq![p] + s
    } else {
        seq![s[0]] + insert_by_id(s.drop_first(), p)
    }
}

/// The passages ordered by ascending point id, stably.
pub open spec fn sort_by_id_spec(s: Seq<Passage>) -> Seq<Passage>
    decreases s.len(),
{
    if s.len() == 0 {
        Seq::<Passage>::empty()
    } else {
        insert_by_id(sort_by_id_spec(s.drop_last()), s.last())
    }
}

/// The ids of `s` are in ascending order.
pub open spec fn sorted_by_id(s: Seq<Passage>) -> bool {
    forall|i: int, j: int| 0 <= i < j < s.len() ==> (#[trigger] s[i]).id <= (#[trigger] s[j]).id
}

/// The first three passages (all of them when there are fewer).
pub open spec fn take_up_to_3(s: Seq<Passage>) -> Seq<Passage> {
    if s.len() <= 3 {
        s
    } else {
        s.take(3)
    }
}

/// The distilled recall block for a set of ephemeral-collection hits:
/// relevant hits only, ordered by id, at most three, joined by newlines.
pub open spec fn distilled_spec(hits: Seq<SearchHit>) -> Seq<char> {
    join_nl(texts_of(take_up_to_3(sort_by_id_spec(relevant_passages(hits)))))
}

proof fn lemma_insert_by_id_at(s: Seq<Passage>, p: Passage, i: int)
    requires
        0 <= i <= s.len(),
        forall|j: int| 0 <= j < i ==> (#[trigger] s[j]).id <= p.id,
        i == s.len() || p.id < s[i].id,
    ensures
        insert_by_id(s, p) == s.insert(i, p),
    decreases i,
{
    if i == 0 {
        if s.len() == 0 {
            assert(seq![p] =~= s.insert(0, p));
        } else {
            assert(p.id < s[0].id);
            assert(seq![p] + s =~= s.insert(0, p));
        }
    } else {
        assert(s[0].id <= p.id);
        lemma_insert_by_id_at(s.drop_first(), p, i - 1);
        assert(seq![s[0]] + s.drop_first().insert(i - 1, p) =~= s.insert(i, p));
    }
}

fn insert_sorted(out: &mut Vec<Passage>, p: Passage)
    ensures
        final(out)@ == insert_by_id(old(out)@, p),
{
    let n = out.len();
    let mut i: usize = 0;
    while i < n && out[i].id <= p.id
        invariant
            n == out@.len(),
            out@ == old(out)@,
            i <= n,
            forall|j: int| 0 <= j < i ==> (#[trigger] out@[j]).id <= p.id,
        decreases n - i,
    {
        i = i + 1;
    }
    proof {
        lemma_insert_by_id_at(out@, p, i as int);
    }
    out.insert(i, p);
}

/// Order the passages by ascending point id (stable).
pub fn sort_passages_by_id(ps: &Vec<Passage>) -> (r: Vec<Passage>)
    ensures
        r@ == sort_by_id_spec(ps@),
{
    let n = ps.len();
    let mut out: Vec<Passage> = Vec::new();
    let mut i: usize = 0;
    while i < n
        invariant
            n == ps@.len(),
            i <= n,
            out@ == sort_by_id_spec(ps@.take(i as int)),
        decreases n - i,
    {
        proof {
            assert(ps@.take(i + 1).drop_last() =~= ps@.take(i as int));
            assert(ps@.take(i + 1).last() == ps@[i as int]);
        }
        insert_sorted(&mut out, ps[i].clone());
        i = i + 1;
    }
    proof {
        assert(ps@.take(n as int) =~= ps@);
    }
    out
}

/// Distill the recall hits for one query: keep the hits that passed the
/// similarity threshold, order them by ascending point id, keep at most
/// three, and join their texts with newlines.
pub fn last_3_relevant_qa_pairs(hits: &Vec<SearchHit>) -> (r: String)
    ensures
        r@ == distilled_spec(hits@),
{
    let ps = filter_hits(hits);
    let mut sorted = sort_passages_by_id(&ps);
    if sorted.len() > 3 {
        sorted.truncate(3);
    }
    join_passages(&sorted)
}

proof fn lemma_insert_by_id_elems(s: Seq<Passage>, p: Passage)
    ensures
        forall|k: int|
            0 <= k < insert_by_id(s, p).len() ==> s.contains(#[trigger] insert_by_id(s, p)[k])
                || insert_by_id(s, p)[k] == p,
    decreases s.len(),
{
    let u = insert_by_id(s, p);
    if s.len() == 0 {
        assert(u[0] == p);
    } else if p.id < s[0].id {
        assert forall|k: int| 0 <= k < u.len() implies s.contains(#[trigger] u[k]) || u[k]
            == p by {
            if k > 0 {
                assert(u[k] == s[k - 1]);
            }
        }
    } else {
        lemma_insert_by_id_elems(s.drop_first(), p);
        assert forall|k: int| 0 <= k < u.len() implies s.contains(#[trigger] u[k]) || u[k]
            == p by {
            if k == 0 {
                assert(u[0] == s[0]);
            } else {
                let rest = insert_by_id(s.drop_first(), p);
                assert(u[k] == rest[k - 1]);
                if s.drop_first().contains(rest[k - 1]) {
                    let m = choose|m: int|
                        0 <= m < s.drop_first().len() && s.drop_first()[m] == rest[k - 1];
                    assert(s[m + 1] == rest[k - 1]);
                }
            }
        }
    }
}

proof fn lemma_insert_by_id_sorted(s: Seq<Passage>, p: Passage)
    requires
        sorted_by_id(s),
    ensures
        sorted_by_id(insert_by_id(s, p)),
    decreases s.len(),
{
    let u = insert_by_id(s, p);
    if s.len() == 0 {
    } else if p.id < s[0].id {
        assert forall|i: int, j: int| 0 <= i < j < u.len() implies (#[trigger] u[i]).id
            <= (#[trigger] u[j]).id by {
            if i > 0 {
                assert(u[i] == s[i - 1]);
                assert(u[j] == s[j - 1]);
            } else {
                assert(u[j] == s[j - 1]);
                assert(p.id < s[0].id);
                if j > 1 {
                    assert(s[0].id <= s[j - 1].id);
                }
            }
        }
    } else {
        assert(sorted_by_id(s.drop_first())) by {
            assert forall|i: int, j: int| 0 <= i < j < s.drop_first().len() implies (#[trigger] s.drop_first()[i]).id
                <= (#[trigger] s.drop_first()[j]).id by {
                assert(s.drop_first()[i] == s[i + 1]);
                assert(s.drop_first()[j] == s[j + 1]);
            }
        }
        lemma_insert_by_id_sorted(s.drop_first(), p);
        lemma_insert_by_id_elems(s.drop_first(), p);
        let rest = insert_by_id(s.drop_first(), p);
        assert forall|i: int, j: int| 0 <= i < j < u.len() implies (#[trigger] u[i]).id
            <= (#[trigger] u[j]).id by {
            if i > 0 {
                assert(u[i] == rest[i - 1]);
                assert(u[j] == rest[j - 1]);
            } else {
                assert(u[0] == s[0]);
                assert(u[j] == rest[j - 1]);
                if s.drop_first().contains(rest[j - 1]) {
                    let m = choose|m: int|
                        0 <= m < s.drop_first().len() && s.drop_first()[m] == rest[j - 1];
                    assert(s[m + 1] == rest[j - 1]);
                    assert(s[0].id <= s[m + 1].id);
                } else {
                    assert(rest[j - 1] == p);
                    assert(s[0].id <= p.id);
                }
            }
        }
    }
}

/// The distiller's ordering: the sorted view of any passage sequence has its
/// ids in ascending order.
pub proof fn lemma_sort_by_id_sorted(s: Seq<Passage>)
    ensures
        sorted_by_id(sort_by_id_spec(s)),
    decreases s.len(),
{
    if s.len() > 0 {
        lemma_sort_by_id_sorted(s.drop_last());
        lemma_insert_by_id_sorted(sort_by_id_spec(s.drop_last()), s.last());
    }
}

} // verus!
