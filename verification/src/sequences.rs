//! Facts about sequences that the rules of several modules share.

use vstd::prelude::*;

verus! {

/// The first `max` items of a sequence, or all of them where it has fewer.
pub open spec fn capped<A>(s: Seq<A>, max: nat) -> Seq<A> {
    if s.len() <= max {
        s
    } else {
        s.take(max as int)
    }
}

/// What a rule keeps of the first `i` items stands at the start of what it
/// keeps of all of them.
pub proof fn lemma_filter_map_prefix<A, B>(s: Seq<A>, f: spec_fn(A) -> Option<B>, i: int)
    requires
        0 <= i <= s.len(),
    ensures
        s.take(i).filter_map(f).len() <= s.filter_map(f).len(),
        s.filter_map(f).take(s.take(i).filter_map(f).len() as int) == s.take(i).filter_map(f),
    decreases s.len() - i,
{
    if i == s.len() {
        assert(s.take(i) =~= s);
    } else {
        s.lemma_filter_map_take_succ(f, i);
        lemma_filter_map_prefix(s, f, i + 1);
    }
}

/// A sequence that is full at `max` and stands at the start of another is the
/// other one capped.
pub proof fn lemma_full_prefix_is_capped<A, B>(
    s: Seq<A>,
    f: spec_fn(A) -> Option<B>,
    i: int,
    max: nat,
)
    requires
        0 <= i <= s.len(),
        s.take(i).filter_map(f).len() <= max,
        i == s.len() || s.take(i).filter_map(f).len() == max,
    ensures
        capped(s.filter_map(f), max) == s.take(i).filter_map(f),
{
    lemma_filter_map_prefix(s, f, i);
    if i == s.len() {
        assert(s.take(i) =~= s);
    }
}

/// What a rule makes of one item, as a sequence.
pub open spec fn kept_of<A, B>(f: spec_fn(A) -> Option<B>, item: A) -> Seq<B> {
    match f(item) {
        Some(b) => seq![b],
        None => Seq::empty(),
    }
}

/// What a rule keeps of a sequence begins with what it makes of the first
/// item.
pub proof fn lemma_filter_map_first<A, B>(first: A, rest: Seq<A>, f: spec_fn(A) -> Option<B>)
    ensures
        (seq![first] + rest).filter_map(f) == kept_of(f, first) + rest.filter_map(f),
    decreases rest.len(),
{
    let all = seq![first] + rest;
    if rest.len() == 0 {
        assert(all.drop_last().filter_map(f) =~= Seq::<B>::empty());
    } else {
        assert(all.drop_last() =~= seq![first] + rest.drop_last());
        lemma_filter_map_first(first, rest.drop_last(), f);
    }
}

/// What a rule keeps of two sequences put together is what it keeps of the
/// one, followed by what it keeps of the other.
pub proof fn lemma_filter_map_concat<A, B>(a: Seq<A>, b: Seq<A>, f: spec_fn(A) -> Option<B>)
    ensures
        (a + b).filter_map(f) == a.filter_map(f) + b.filter_map(f),
    decreases b.len(),
{
    if b.len() > 0 {
        assert((a + b).drop_last() =~= a + b.drop_last());
        lemma_filter_map_concat(a, b.drop_last(), f);
    }
}

/// What a rule makes of an item of a sequence is among what it keeps of the
/// sequence.
pub proof fn lemma_filter_map_keeps<A, B>(s: Seq<A>, f: spec_fn(A) -> Option<B>, i: int)
    requires
        0 <= i < s.len(),
        f(s[i]) is Some,
    ensures
        s.filter_map(f).contains(f(s[i])->0),
    decreases s.len(),
{
    let kept = s.filter_map(f);
    if i == s.len() - 1 {
        assert(kept[kept.len() - 1] == f(s[i])->0);
    } else {
        lemma_filter_map_keeps(s.drop_last(), f, i);
        let before = s.drop_last().filter_map(f);
        let k = choose|k: int| 0 <= k < before.len() && before[k] == f(s[i])->0;
        assert(kept[k] == before[k]);
    }
}

} // verus!
