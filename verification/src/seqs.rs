//! Facts about filtered sequences.

use vstd::prelude::*;

verus! {

/// A filter that lets everything through changes nothing.
pub proof fn lemma_filter_all<A>(s: Seq<A>, keep: spec_fn(A) -> bool)
    requires
        forall|i: int| 0 <= i < s.len() ==> keep(#[trigger] s[i]),
    ensures
        s.filter(keep) == s,
    decreases s.len(),
{
    reveal(Seq::filter);
    if s.len() > 0 {
        assert forall|i: int| 0 <= i < s.drop_last().len() implies keep(
            #[trigger] s.drop_last()[i],
        ) by {
            assert(s.drop_last()[i] == s[i]);
        }
        lemma_filter_all(s.drop_last(), keep);
        assert(keep(s[s.len() - 1]));
        assert(s.drop_last().push(s.last()) =~= s);
    }
}

/// Filters that agree on the items of a sequence leave the same items.
pub proof fn lemma_same_filter<A>(s: Seq<A>, f: spec_fn(A) -> bool, g: spec_fn(A) -> bool)
    requires
        forall|i: int| 0 <= i < s.len() ==> f(#[trigger] s[i]) == g(s[i]),
    ensures
        s.filter(f) == s.filter(g),
    decreases s.len(),
{
    reveal(Seq::filter);
    if s.len() > 0 {
        assert forall|i: int| 0 <= i < s.drop_last().len() implies f(#[trigger] s.drop_last()[i])
            == g(s.drop_last()[i]) by {
            assert(s.drop_last()[i] == s[i]);
        }
        lemma_same_filter(s.drop_last(), f, g);
        assert(f(s[s.len() - 1]) == g(s[s.len() - 1]));
    }
}

/// Filtering twice is filtering by both.
pub proof fn lemma_filter_twice<A>(s: Seq<A>, f: spec_fn(A) -> bool, g: spec_fn(A) -> bool)
    ensures
        s.filter(f).filter(g) == s.filter(|a: A| f(a) && g(a)),
    decreases s.len(),
{
    reveal(Seq::filter);
    if s.len() > 0 {
        lemma_filter_twice(s.drop_last(), f, g);
        let front = s.drop_last().filter(f);
        if f(s.last()) {
            assert(front.push(s.last()).drop_last() =~= front);
        }
    }
}

/// A filter keeps the items that it lets through.
pub proof fn lemma_filter_keeps<A>(s: Seq<A>, keep: spec_fn(A) -> bool, x: A)
    requires
        s.contains(x),
        keep(x),
    ensures
        s.filter(keep).contains(x),
    decreases s.len(),
{
    reveal(Seq::filter);
    let i = choose|i: int| 0 <= i < s.len() && s[i] == x;
    let front = s.drop_last();
    if i < s.len() - 1 {
        assert(front[i] == x);
        lemma_filter_keeps(front, keep, x);
        let j = choose|j: int| 0 <= j < front.filter(keep).len() && front.filter(keep)[j] == x;
        assert(s.filter(keep)[j] == x);
    } else {
        assert(s.filter(keep)[s.filter(keep).len() - 1] == x);
    }
}

/// A filtered sequence holds items of the sequence that the filter lets through.
pub proof fn lemma_filtered_item<A>(s: Seq<A>, keep: spec_fn(A) -> bool, i: int)
    requires
        0 <= i < s.filter(keep).len(),
    ensures
        s.contains(s.filter(keep)[i]),
        keep(s.filter(keep)[i]),
    decreases s.len(),
{
    reveal(Seq::filter);
    let front = s.drop_last();
    let x = s.filter(keep)[i];
    if i < front.filter(keep).len() {
        lemma_filtered_item(front, keep, i);
        let j = choose|j: int| 0 <= j < front.len() && front[j] == x;
        assert(s[j] == x);
    } else {
        assert(s[s.len() - 1] == x);
    }
}

/// Membership after one more item.
pub proof fn lemma_push_contains<A>(s: Seq<A>, a: A, x: A)
    ensures
        s.push(a).contains(x) <==> s.contains(x) || x == a,
{
    let t = s.push(a);
    if s.contains(x) {
        let i = choose|i: int| 0 <= i < s.len() && s[i] == x;
        assert(t[i] == x);
    }
    if x == a {
        assert(t[s.len() as int] == x);
    }
    if t.contains(x) && x != a {
        let i = choose|i: int| 0 <= i < t.len() && t[i] == x;
        assert(s[i] == x);
    }
}

} // verus!
