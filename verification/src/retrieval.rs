//! Dual-query retrieval composition: threshold filtering, deduplication by
//! point id with later queries taking precedence, and joining the surviving
//! passages into one context block.
//!
//! The similarity score of a hit is floating point and stays with the search
//! adapter; each hit reaches this module carrying the verdict of the
//! adapter's threshold comparison instead.

use vstd::prelude::*;
use vstd::string::StringExecFns;

verus! {

/// One vector-search hit as the adapter hands it over: the point id, the
/// textual payload, and whether the hit's similarity score exceeded the
/// configured threshold.
pub struct SearchHit {
    pub id: u64,
    pub text: String,
    pub above_threshold: bool,
}

/// A passage admitted to the retrieval context.
pub struct Passage {
    pub id: u64,
    pub text: String,
}

impl Clone for Passage {
    fn clone(&self) -> (r: Self)
        ensures
            r == *self,
    {
        Passage { id: self.id, text: self.text.clone() }
    }
}

pub open spec fn passage_of(h: SearchHit) -> Passage {
    Passage { id: h.id, text: h.text }
}

/// The passages of the hits that passed the threshold, in hit order.
pub open spec fn relevant_passages(hits: Seq<SearchHit>) -> Seq<Passage>
    decreases hits.len(),
{
    if hits.len() == 0 {
        Seq::<Passage>::empty()
    } else {
        let front = relevant_passages(hits.drop_last());
        if hits.last().above_threshold {
            front.push(passage_of(hits.last()))
        } else {
            front
        }
    }
}

/// Some passage in `s` carries this point id.
pub open spec fn has_id(s: Seq<Passage>, id: u64) -> bool {
    exists|i: int| 0 <= i < s.len() && (#[trigger] s[i]).id == id
}

/// The text of the first passage in `s` with this point id.
pub open spec fn text_at(s: Seq<Passage>, id: u64) -> Seq<char>
    decreases s.len(),
{
    if s.len() == 0 {
        Seq::<char>::empty()
    } else if s[0].id == id {
        s[0].text@
    } else {
        text_at(s.drop_first(), id)
    }
}

/// No two passages in `s` share a point id.
pub open spec fn distinct_ids(s: Seq<Passage>) -> bool {
    forall|i: int, j: int| 0 <= i < j < s.len() ==> (#[trigger] s[i]).id != (#[trigger] s[j]).id
}

/// No two hits in `hits` share a point id.
pub open spec fn distinct_hit_ids(hits: Seq<SearchHit>) -> bool {
    forall|i: int, j: int|
        0 <= i < j < hits.len() ==> (#[trigger] hits[i]).id != (#[trigger] hits[j]).id
}

/// Store a passage into the accumulated bundle: replace the passage with the
/// same id when one exists, append otherwise.
pub open spec fn upsert_spec(s: Seq<Passage>, p: Passage) -> Seq<Passage>
    decreases s.len(),
{
    if s.len() == 0 {
        seq![p]
    } else if s[0].id == p.id {
        seq![p] + s.drop_first()
    } else {
        seq![s[0]] + upsert_spec(s.drop_first(), p)
    }
}

/// Store each passage of `ps` in turn into `acc`.
pub open spec fn fold_upserts(acc: Seq<Passage>, ps: Seq<Passage>) -> Seq<Passage>
    decreases ps.len(),
{
    if ps.len() == 0 {
        acc
    } else {
        fold_upserts(upsert_spec(acc, ps[0]), ps.drop_first())
    }
}

/// The deduplicated bundle of both queries' relevant passages: the raw
/// question's hits are stored first, the hypothetical answer's hits after
/// them, so on an id collision the hypothetical-answer passage wins.
pub open spec fn merged_passages(raw: Seq<SearchHit>, hypo: Seq<SearchHit>) -> Seq<Passage> {
    fold_upserts(
        fold_upserts(Seq::<Passage>::empty(), relevant_passages(raw)),
        relevant_passages(hypo),
    )
}

/// The passage texts joined by a newline.
pub open spec fn join_nl(texts: Seq<Seq<char>>) -> Seq<char>
    decreases texts.len(),
{
    if texts.len() == 0 {
        Seq::<char>::empty()
    } else if texts.len() == 1 {
        texts[0]
    } else {
        texts[0] + "\n"@ + join_nl(texts.drop_first())
    }
}

pub open spec fn texts_of(ps: Seq<Passage>) -> Seq<Seq<char>> {
    ps.map_values(|p: Passage| p.text@)
}

/// Keep the hits that passed the similarity threshold, as passages.
pub fn filter_hits(hits: &Vec<SearchHit>) -> (r: Vec<Passage>)
    ensures
        r@ == relevant_passages(hits@),
{
    let n = hits.len();
    let mut out: Vec<Passage> = Vec::new();
    let mut i: usize = 0;
    while i < n
        invariant
            n == hits@.len(),
            i <= n,
            out@ == relevant_passages(hits@.take(i as int)),
        decreases n - i,
    {
        proof {
            assert(hits@.take(i + 1).drop_last() =~= hits@.take(i as int));
            assert(hits@.take(i + 1).last() == hits@[i as int]);
        }
        if hits[i].above_threshold {
            out.push(Passage { id: hits[i].id, text: hits[i].text.clone() });
        }
        i = i + 1;
    }
    proof {
        assert(hits@.take(n as int) =~= hits@);
    }
    out
}

proof fn lemma_upsert_at(s: Seq<Passage>, p: Passage, i: int)
    requires
        0 <= i < s.len(),
        s[i].id == p.id,
        forall|j: int| 0 <= j < i ==> (#[trigger] s[j]).id != p.id,
    ensures
        upsert_spec(s, p) == s.update(i, p),
    decreases i,
{
    if i == 0 {
        assert(upsert_spec(s, p) == seq![p] + s.drop_first());
        assert(seq![p] + s.drop_first() =~= s.update(0, p));
    } else {
        assert(s[0].id != p.id);
        lemma_upsert_at(s.drop_first(), p, i - 1);
        assert(seq![s[0]] + s.drop_first().update(i - 1, p) =~= s.update(i, p));
    }
}

proof fn lemma_upsert_absent(s: Seq<Passage>, p: Passage)
    requires
        forall|j: int| 0 <= j < s.len() ==> (#[trigger] s[j]).id != p.id,
    ensures
        upsert_spec(s, p) == s.push(p),
    decreases s.len(),
{
    if s.len() == 0 {
        assert(seq![p] =~= s.push(p));
    } else {
        lemma_upsert_absent(s.drop_first(), p);
        assert(seq![s[0]] + s.drop_first().push(p) =~= s.push(p));
    }
}

/// Store one passage into the working bundle.
fn upsert_passage(acc: &mut Vec<Passage>, p: Passage)
    ensures
        final(acc)@ == upsert_spec(old(acc)@, p),
{
    let n = acc.len();
    let mut i: usize = 0;
    while i < n
        invariant
            n == acc@.len(),
            acc@ == old(acc)@,
            i <= n,
            forall|j: int| 0 <= j < i ==> (#[trigger] acc@[j]).id != p.id,
        decreases n - i,
    {
        if acc[i].id == p.id {
            proof {
                lemma_upsert_at(acc@, p, i as int);
            }
            let ghost before = acc@;
            let q = p.clone();
            acc[i] = q;
            proof {
                assert(acc@ =~= before.update(i as int, p));
            }
            return ;
        }
        i = i + 1;
    }
    proof {
        lemma_upsert_absent(acc@, p);
    }
    acc.push(p);
}

/// Deduplicate both queries' relevant passages into one bundle; the
/// hypothetical answer's hits are stored last and therefore win collisions.
pub fn merge_hits(raw: &Vec<SearchHit>, hypo: &Vec<SearchHit>) -> (r: Vec<Passage>)
    ensures
        r@ == merged_passages(raw@, hypo@),
{
    let raw_p = filter_hits(raw);
    let hypo_p = filter_hits(hypo);
    let mut acc: Vec<Passage> = Vec::new();
    let mut i: usize = 0;
    let n = raw_p.len();
    proof {
        assert(raw_p@.skip(0) =~= raw_p@);
    }
    while i < n
        invariant
            n == raw_p@.len(),
            i <= n,
            fold_upserts(acc@, raw_p@.skip(i as int)) == fold_upserts(
                Seq::<Passage>::empty(),
                raw_p@,
            ),
        decreases n - i,
    {
        proof {
            assert(raw_p@.skip(i as int)[0] == raw_p@[i as int]);
            assert(raw_p@.skip(i as int).drop_first() =~= raw_p@.skip(i + 1));
        }
        upsert_passage(&mut acc, raw_p[i].clone());
        i = i + 1;
    }
    proof {
        assert(raw_p@.skip(n as int) =~= Seq::<Passage>::empty());
    }
    let mut i: usize = 0;
    let n = hypo_p.len();
    let ghost after_raw = acc@;
    proof {
        assert(hypo_p@.skip(0) =~= hypo_p@);
    }
    while i < n
        invariant
            n == hypo_p@.len(),
            i <= n,
            fold_upserts(acc@, hypo_p@.skip(i as int)) == fold_upserts(after_raw, hypo_p@),
        decreases n - i,
    {
        proof {
            assert(hypo_p@.skip(i as int)[0] == hypo_p@[i as int]);
            assert(hypo_p@.skip(i as int).drop_first() =~= hypo_p@.skip(i + 1));
        }
        upsert_passage(&mut acc, hypo_p[i].clone());
        i = i + 1;
    }
    proof {
        assert(hypo_p@.skip(n as int) =~= Seq::<Passage>::empty());
    }
    acc
}

proof fn lemma_join_push(texts: Seq<Seq<char>>, x: Seq<char>)
    ensures
        texts.len() == 0 ==> join_nl(texts.push(x)) == x,
        texts.len() > 0 ==> join_nl(texts.push(x)) == join_nl(texts) + "\n"@ + x,
    decreases texts.len(),
{
    if texts.len() == 0 {
        assert(texts.push(x)[0] == x);
    } else if texts.len() == 1 {
        assert(texts.push(x)[0] == texts[0]);
        assert(texts.push(x).drop_first() =~= seq![x]);
        assert(join_nl(seq![x]) == x);
    } else {
        assert(texts.push(x).drop_first() =~= texts.drop_first().push(x));
        lemma_join_push(texts.drop_first(), x);
    }
}

/// Join the bundle's texts with newlines.
pub fn join_passages(ps: &Vec<Passage>) -> (r: String)
    ensures
        r@ == join_nl(texts_of(ps@)),
{
    let n = ps.len();
    let mut out = String::new();
    let mut i: usize = 0;
    while i < n
        invariant
            n == ps@.len(),
            i <= n,
            out@ == join_nl(texts_of(ps@.take(i as int))),
        decreases n - i,
    {
        proof {
            assert(texts_of(ps@.take(i + 1)) =~= texts_of(ps@.take(i as int)).push(
                ps@[i as int].text@,
            ));
            lemma_join_push(texts_of(ps@.take(i as int)), ps@[i as int].text@);
            assert(texts_of(ps@.take(i as int)).len() == i);
        }
        if i > 0 {
            out.append("\n");
        }
        out.append(ps[i].text.as_str());
        i = i + 1;
    }
    proof {
        assert(ps@.take(n as int) =~= ps@);
    }
    out
}

/// The composed retrieval context for the two queries: filter by the
/// threshold verdict, deduplicate by point id with the hypothetical answer's
/// passages winning, join with newlines.
pub fn get_rag_content(raw: &Vec<SearchHit>, hypo: &Vec<SearchHit>) -> (r: String)
    ensures
        r@ == join_nl(texts_of(merged_passages(raw@, hypo@))),
{
    let merged = merge_hits(raw, hypo);
    join_passages(&merged)
}

/// The passage carries the id and text of some hit of `hits` that passed
/// the threshold.
pub open spec fn is_from_relevant_hit(hits: Seq<SearchHit>, p: Passage) -> bool {
    exists|j: int| 0 <= j < hits.len() && (#[trigger] hits[j]).above_threshold && p == passage_of(
        hits[j],
    )
}

proof fn lemma_relevant_passages_sound(hits: Seq<SearchHit>)
    ensures
        forall|k: int|
            0 <= k < relevant_passages(hits).len() ==> is_from_relevant_hit(
                hits,
                #[trigger] relevant_passages(hits)[k],
            ),
    decreases hits.len(),
{
    if hits.len() > 0 {
        lemma_relevant_passages_sound(hits.drop_last());
        let front = relevant_passages(hits.drop_last());
        assert forall|k: int| 0 <= k < relevant_passages(hits).len() implies is_from_relevant_hit(
            hits,
            #[trigger] relevant_passages(hits)[k],
        ) by {
            if k < front.len() {
                let j = choose|j: int|
                    0 <= j < hits.drop_last().len() && (#[trigger] hits.drop_last()[j]).above_threshold
                        && front[k] == passage_of(hits.drop_last()[j]);
                assert(hits[j] == hits.drop_last()[j]);
                assert(relevant_passages(hits)[k] == front[k]);
                assert(hits[j].above_threshold && relevant_passages(hits)[k] == passage_of(
                    hits[j],
                ));
            } else {
                assert(hits.last().above_threshold);
                let j = hits.len() - 1;
                assert(hits[j].above_threshold && relevant_passages(hits)[k] == passage_of(
                    hits[j],
                ));
            }
        }
    }
}

proof fn lemma_has_id_unfold(s: Seq<Passage>, q: u64)
    requires
        s.len() > 0,
    ensures
        has_id(s, q) <==> (s[0].id == q || has_id(s.drop_first(), q)),
{
    if has_id(s, q) {
        let i = choose|i: int| 0 <= i < s.len() && (#[trigger] s[i]).id == q;
        if i > 0 {
            assert(s.drop_first()[i - 1].id == q);
        }
    }
    if has_id(s.drop_first(), q) {
        let i = choose|i: int| 0 <= i < s.drop_first().len() && (#[trigger] s.drop_first()[i]).id
            == q;
        assert(s[i + 1].id == q);
    }
}

proof fn lemma_upsert_props(s: Seq<Passage>, p: Passage, q: u64)
    requires
        distinct_ids(s),
    ensures
        distinct_ids(upsert_spec(s, p)),
        has_id(upsert_spec(s, p), q) <==> (has_id(s, q) || q == p.id),
        q == p.id ==> text_at(upsert_spec(s, p), q) == p.text@,
        q != p.id ==> text_at(upsert_spec(s, p), q) == text_at(s, q),
    decreases s.len(),
{
    let u = upsert_spec(s, p);
    if s.len() == 0 {
        assert(u == seq![p]);
        assert(u[0] == p);
        lemma_has_id_unfold(u, q);
        assert(u.drop_first() =~= Seq::<Passage>::empty());
        if q != p.id {
            assert(text_at(u, q) == text_at(u.drop_first(), q));
        }
    } else if s[0].id == p.id {
        assert(u == seq![p] + s.drop_first());
        assert(u[0] == p);
        assert(u.drop_first() =~= s.drop_first());
        if q != p.id {
            assert(text_at(u, q) == text_at(u.drop_first(), q));
            assert(text_at(s, q) == text_at(s.drop_first(), q));
        }
        assert forall|i: int, j: int| 0 <= i < j < u.len() implies (#[trigger] u[i]).id
            != (#[trigger] u[j]).id by {
            if i > 0 {
                assert(u[i] == s[i]);
                assert(u[j] == s[j]);
            } else {
                assert(u[j] == s[j]);
            }
        }
        lemma_has_id_unfold(u, q);
        lemma_has_id_unfold(s, q);
    } else {
        assert(u == seq![s[0]] + upsert_spec(s.drop_first(), p));
        assert(distinct_ids(s.drop_first())) by {
            assert forall|i: int, j: int| 0 <= i < j < s.drop_first().len() implies (#[trigger] s.drop_first()[i]).id
                != (#[trigger] s.drop_first()[j]).id by {
                assert(s.drop_first()[i] == s[i + 1]);
                assert(s.drop_first()[j] == s[j + 1]);
            }
        }
        lemma_upsert_props(s.drop_first(), p, q);
        // every id of the recursive upsert is an id of the tail or p's
        assert(u[0] == s[0]);
        assert(u.drop_first() =~= upsert_spec(s.drop_first(), p));
        assert forall|i: int, j: int| 0 <= i < j < u.len() implies (#[trigger] u[i]).id
            != (#[trigger] u[j]).id by {
            if i == 0 {
                let rest = upsert_spec(s.drop_first(), p);
                assert(rest[j - 1] == u[j]);
                assert(has_id(rest, u[j].id)) by {
                    assert((#[trigger] rest[j - 1]).id == u[j].id);
                }
                lemma_upsert_props(s.drop_first(), p, u[j].id);
                if u[j].id == s[0].id {
                    if has_id(s.drop_first(), u[j].id) {
                        let k = choose|k: int|
                            0 <= k < s.drop_first().len() && (#[trigger] s.drop_first()[k]).id
                                == u[j].id;
                        assert(s[k + 1].id == s[0].id);
                        assert(false);
                    } else {
                        assert(u[j].id == p.id);
                        assert(false);
                    }
                }
            } else {
                let rest = upsert_spec(s.drop_first(), p);
                assert(distinct_ids(rest));
                assert(rest[i - 1] == u[i]);
                assert(rest[j - 1] == u[j]);
            }
        }
        lemma_has_id_unfold(u, q);
        lemma_has_id_unfold(s, q);
        if q != p.id && s[0].id != q {
            assert(text_at(u, q) == text_at(u.drop_first(), q));
            assert(text_at(s, q) == text_at(s.drop_first(), q));
        }
    }
}

proof fn lemma_fold_props(acc: Seq<Passage>, ps: Seq<Passage>, q: u64)
    requires
        distinct_ids(acc),
        distinct_ids(ps),
    ensures
        distinct_ids(fold_upserts(acc, ps)),
        has_id(fold_upserts(acc, ps), q) <==> (has_id(acc, q) || has_id(ps, q)),
        has_id(ps, q) ==> text_at(fold_upserts(acc, ps), q) == text_at(ps, q),
        !has_id(ps, q) ==> text_at(fold_upserts(acc, ps), q) == text_at(acc, q),
    decreases ps.len(),
{
    if ps.len() == 0 {
        assert(!has_id(ps, q));
    } else {
        let p = ps[0];
        let acc2 = upsert_spec(acc, p);
        lemma_upsert_props(acc, p, q);
        assert(distinct_ids(ps.drop_first())) by {
            assert forall|i: int, j: int| 0 <= i < j < ps.drop_first().len() implies (#[trigger] ps.drop_first()[i]).id
                != (#[trigger] ps.drop_first()[j]).id by {
                assert(ps.drop_first()[i] == ps[i + 1]);
                assert(ps.drop_first()[j] == ps[j + 1]);
            }
        }
        lemma_fold_props(acc2, ps.drop_first(), q);
        lemma_has_id_unfold(ps, q);
        if has_id(ps, q) {
            if q == p.id {
                // q cannot recur in the tail: the ids of ps are distinct
                if has_id(ps.drop_first(), q) {
                    let k = choose|k: int|
                        0 <= k < ps.drop_first().len() && (#[trigger] ps.drop_first()[k]).id == q;
                    assert(ps[k + 1].id == q);
                    assert(false);
                }
                assert(text_at(fold_upserts(acc, ps), q) == text_at(acc2, q));
                assert(text_at(ps, q) == p.text@);
            } else {
                assert(has_id(ps.drop_first(), q));
                assert(text_at(ps, q) == text_at(ps.drop_first(), q));
            }
        } else {
            assert(q != p.id);
        }
    }
}

proof fn lemma_contains_drop_first<A>(s: Seq<A>, x: A)
    requires
        s.len() > 0,
        s.drop_first().contains(x),
    ensures
        s.contains(x),
{
    let i = choose|i: int| 0 <= i < s.drop_first().len() && s.drop_first()[i] == x;
    assert(s[i + 1] == x);
}

proof fn lemma_upsert_elems(s: Seq<Passage>, p: Passage)
    ensures
        forall|k: int|
            0 <= k < upsert_spec(s, p).len() ==> s.contains(#[trigger] upsert_spec(s, p)[k])
                || upsert_spec(s, p)[k] == p,
    decreases s.len(),
{
    let u = upsert_spec(s, p);
    if s.len() == 0 {
        assert(u[0] == p);
    } else if s[0].id == p.id {
        assert forall|k: int| 0 <= k < u.len() implies s.contains(#[trigger] u[k]) || u[k]
            == p by {
            if k > 0 {
                assert(u[k] == s[k]);
            }
        }
    } else {
        lemma_upsert_elems(s.drop_first(), p);
        assert forall|k: int| 0 <= k < u.len() implies s.contains(#[trigger] u[k]) || u[k]
            == p by {
            if k == 0 {
                assert(u[0] == s[0]);
            } else {
                let rest = upsert_spec(s.drop_first(), p);
                assert(u[k] == rest[k - 1]);
                if s.drop_first().contains(rest[k - 1]) {
                    lemma_contains_drop_first(s, rest[k - 1]);
                }
            }
        }
    }
}

proof fn lemma_fold_elems(acc: Seq<Passage>, ps: Seq<Passage>)
    ensures
        forall|k: int|
            0 <= k < fold_upserts(acc, ps).len() ==> acc.contains(
                #[trigger] fold_upserts(acc, ps)[k],
            ) || ps.contains(fold_upserts(acc, ps)[k]),
    decreases ps.len(),
{
    if ps.len() > 0 {
        let p = ps[0];
        let acc2 = upsert_spec(acc, p);
        lemma_fold_elems(acc2, ps.drop_first());
        lemma_upsert_elems(acc, p);
        let f = fold_upserts(acc, ps);
        assert forall|k: int| 0 <= k < f.len() implies acc.contains(#[trigger] f[k])
            || ps.contains(f[k]) by {
            assert(f == fold_upserts(acc2, ps.drop_first()));
            assert(acc2.contains(fold_upserts(acc2, ps.drop_first())[k]) || ps.drop_first()
                .contains(fold_upserts(acc2, ps.drop_first())[k]));
            if acc2.contains(f[k]) {
                let i = choose|i: int| 0 <= i < acc2.len() && acc2[i] == f[k];
                if !acc.contains(f[k]) {
                    assert(f[k] == p);
                    assert(ps[0] == f[k]);
                }
            } else {
                assert(ps.drop_first().contains(f[k]));
                lemma_contains_drop_first(ps, f[k]);
            }
        }
    }
}

/// Threshold filter: every passage in the composed retrieval bundle carries
/// the id and text of some hit whose similarity score exceeded the
/// threshold; a hit that failed the comparison contributes nothing.
pub proof fn lemma_merged_passages_above_threshold(raw: Seq<SearchHit>, hypo: Seq<SearchHit>)
    ensures
        forall|k: int|
            0 <= k < merged_passages(raw, hypo).len() ==> is_from_relevant_hit(
                raw,
                #[trigger] merged_passages(raw, hypo)[k],
            ) || is_from_relevant_hit(hypo, merged_passages(raw, hypo)[k]),
{
    let rawp = relevant_passages(raw);
    let hypop = relevant_passages(hypo);
    let inner = fold_upserts(Seq::<Passage>::empty(), rawp);
    let merged = merged_passages(raw, hypo);
    lemma_fold_elems(Seq::<Passage>::empty(), rawp);
    lemma_fold_elems(inner, hypop);
    lemma_relevant_passages_sound(raw);
    lemma_relevant_passages_sound(hypo);
    assert forall|k: int| 0 <= k < merged.len() implies is_from_relevant_hit(
        raw,
        #[trigger] merged[k],
    ) || is_from_relevant_hit(hypo, merged[k]) by {
        if inner.contains(merged[k]) {
            let i = choose|i: int| 0 <= i < inner.len() && inner[i] == merged[k];
            assert(rawp.contains(inner[i]));
            let m = choose|m: int| 0 <= m < rawp.len() && rawp[m] == merged[k];
            assert(is_from_relevant_hit(raw, rawp[m]));
        } else {
            assert(hypop.contains(merged[k]));
            let m = choose|m: int| 0 <= m < hypop.len() && hypop[m] == merged[k];
            assert(is_from_relevant_hit(hypo, hypop[m]));
        }
    }
}

proof fn lemma_relevant_distinct(hits: Seq<SearchHit>)
    requires
        distinct_hit_ids(hits),
    ensures
        distinct_ids(relevant_passages(hits)),
    decreases hits.len(),
{
    if hits.len() > 0 {
        assert(distinct_hit_ids(hits.drop_last())) by {
            assert forall|i: int, j: int| 0 <= i < j < hits.drop_last().len() implies (#[trigger] hits.drop_last()[i]).id
                != (#[trigger] hits.drop_last()[j]).id by {
                assert(hits.drop_last()[i] == hits[i]);
                assert(hits.drop_last()[j] == hits[j]);
            }
        }
        lemma_relevant_distinct(hits.drop_last());
        let front = relevant_passages(hits.drop_last());
        if hits.last().above_threshold {
            lemma_relevant_passages_sound(hits.drop_last());
            let rp = relevant_passages(hits);
            assert forall|i: int, j: int| 0 <= i < j < rp.len() implies (#[trigger] rp[i]).id
                != (#[trigger] rp[j]).id by {
                if j < front.len() {
                    assert(rp[i] == front[i]);
                    assert(rp[j] == front[j]);
                } else {
                    assert(rp[j] == passage_of(hits.last()));
                    assert(rp[i] == front[i]);
                    let m = choose|m: int|
                        0 <= m < hits.drop_last().len()
                            && (#[trigger] hits.drop_last()[m]).above_threshold && front[i]
                            == passage_of(hits.drop_last()[m]);
                    assert(hits[m] == hits.drop_last()[m]);
                    assert(hits[m].id != hits[hits.len() - 1].id);
                }
            }
        }
    }
}

/// Deduplication with hypothetical precedence: the composed bundle never
/// holds two passages with the same point id, an id appears in it exactly
/// when some relevant hit of either query carried it, and on a collision the
/// hypothetical answer's text is the one kept.
pub proof fn lemma_merged_passages_dedup(raw: Seq<SearchHit>, hypo: Seq<SearchHit>)
    requires
        distinct_hit_ids(raw),
        distinct_hit_ids(hypo),
    ensures
        distinct_ids(merged_passages(raw, hypo)),
        forall|q: u64|
            has_id(merged_passages(raw, hypo), q) <==> (has_id(relevant_passages(raw), q)
                || has_id(relevant_passages(hypo), q)),
        forall|q: u64|
            has_id(relevant_passages(hypo), q) ==> text_at(merged_passages(raw, hypo), q)
                == text_at(relevant_passages(hypo), q),
        forall|q: u64|
            has_id(relevant_passages(raw), q) && !has_id(relevant_passages(hypo), q) ==> text_at(
                merged_passages(raw, hypo),
                q,
            ) == text_at(relevant_passages(raw), q),
{
    let rawp = relevant_passages(raw);
    let hypop = relevant_passages(hypo);
    let inner = fold_upserts(Seq::<Passage>::empty(), rawp);
    lemma_relevant_distinct(raw);
    lemma_relevant_distinct(hypo);
    assert forall|q: u64| true implies {
        &&& has_id(merged_passages(raw, hypo), q) <==> (has_id(rawp, q) || has_id(hypop, q))
        &&& has_id(hypop, q) ==> text_at(merged_passages(raw, hypo), q) == text_at(hypop, q)
        &&& has_id(rawp, q) && !has_id(hypop, q) ==> text_at(merged_passages(raw, hypo), q)
            == text_at(rawp, q)
    } by {
        lemma_fold_props(Seq::<Passage>::empty(), rawp, q);
        lemma_fold_props(inner, hypop, q);
        assert(!has_id(Seq::<Passage>::empty(), q));
    }
    lemma_fold_props(Seq::<Passage>::empty(), rawp, 0);
    lemma_fold_props(inner, hypop, 0);
}

} // verus!
