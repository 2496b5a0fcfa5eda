//! Facts about filtered lists.

use vstd::prelude::*;

verus! {

/// Filtering a list with one more element.
pub proof fn lemma_filter_push<A>(s: Seq<A>, x: A, f: spec_fn(A) -> bool)
    ensures
        s.push(x).filter(f) == if f(x) {
            s.filter(f).push(x)
        } else {
            s.filter(f)
        },
{
    reveal(Seq::filter);
    assert(s.push(x).drop_last() =~= s);
}

/// Filters that agree on a list keep the same of it.
pub proof fn lemma_filter_same<A>(s: Seq<A>, f: spec_fn(A) -> bool, g: spec_fn(A) -> bool)
    requires
        forall|i: int| 0 <= i < s.len() ==> f(#[trigger] s[i]) == g(s[i]),
    ensures
        s.filter(f) == s.filter(g),
    decreases s.len(),
{
    reveal(Seq::filter);
    if s.len() > 0 {
        lemma_filter_same(s.drop_last(), f, g);
        assert(s[s.len() - 1] == s.last());
    }
}

/// What is kept was there, and is what is asked for.
pub proof fn lemma_filter_members<A>(s: Seq<A>, f: spec_fn(A) -> bool)
    ensures
        forall|i: int|
            0 <= i < s.filter(f).len() ==> s.contains(#[trigger] s.filter(f)[i]) && f(
                s.filter(f)[i],
            ),
        forall|i: int| 0 <= i < s.len() && f(#[trigger] s[i]) ==> s.filter(f).contains(s[i]),
{
    assert forall|i: int| 0 <= i < s.filter(f).len() implies s.contains(#[trigger] s.filter(f)[i])
        && f(s.filter(f)[i]) by {
        assert(s.filter(f).contains(s.filter(f)[i]));
        s.lemma_filter_contains_rev(f, s.filter(f)[i]);
        s.lemma_filter_pred(f, i);
    }
    assert forall|i: int| 0 <= i < s.len() && f(#[trigger] s[i]) implies s.filter(f).contains(
        s[i],
    ) by {
        s.lemma_filter_contains(f, i);
    }
}

/// Filtering twice is filtering by both.
pub proof fn lemma_filter_and<A>(
    s: Seq<A>,
    f: spec_fn(A) -> bool,
    g: spec_fn(A) -> bool,
    both: spec_fn(A) -> bool,
)
    requires
        forall|i: int| 0 <= i < s.len() ==> (both(#[trigger] s[i]) <==> f(s[i]) && g(s[i])),
    ensures
        s.filter(f).filter(g) == s.filter(both),
    decreases s.len(),
{
    reveal(Seq::filter);
    if s.len() > 0 {
        let rest = s.drop_last();
        lemma_filter_and(rest, f, g, both);
        assert(s[s.len() - 1] == s.last());
        if f(s.last()) {
            assert(rest.filter(f).push(s.last()).drop_last() =~= rest.filter(f));
        }
    }
}

/// A filter for one of two, of which never both hold, keeps as many as the two together.
pub proof fn lemma_filter_split<A>(
    s: Seq<A>,
    f: spec_fn(A) -> bool,
    g: spec_fn(A) -> bool,
    either: spec_fn(A) -> bool,
)
    requires
        forall|i: int|
            0 <= i < s.len() ==> (either(#[trigger] s[i]) <==> f(s[i]) || g(s[i])) && !(f(s[i])
                && g(s[i])),
    ensures
        s.filter(either).len() == s.filter(f).len() + s.filter(g).len(),
    decreases s.len(),
{
    reveal(Seq::filter);
    if s.len() > 0 {
        lemma_filter_split(s.drop_last(), f, g, either);
        assert(s[s.len() - 1] == s.last());
    }
}

/// A filter that drops nothing.
pub proof fn lemma_filter_all<A>(s: Seq<A>, f: spec_fn(A) -> bool)
    requires
        forall|i: int| 0 <= i < s.len() ==> f(#[trigger] s[i]),
    ensures
        s.filter(f) == s,
{
    lemma_filter_tail(s, 0, f);
    assert(s.skip(0) =~= s);
}

/// A filter that drops the first `n` elements and keeps the others.
pub proof fn lemma_filter_tail<A>(s: Seq<A>, n: int, f: spec_fn(A) -> bool)
    requires
        0 <= n <= s.len(),
        forall|i: int| 0 <= i < n ==> !f(#[trigger] s[i]),
        forall|i: int| n <= i < s.len() ==> f(#[trigger] s[i]),
    ensures
        s.filter(f) == s.skip(n),
    decreases s.len(),
{
    reveal(Seq::filter);
    if s.len() > 0 {
        let rest = s.drop_last();
        assert(s[s.len() - 1] == s.last());
        assert forall|i: int| n <= i < rest.len() implies f(#[trigger] rest[i]) by {
            assert(f(s[i]));
        }
        assert forall|i: int| 0 <= i < rest.len() && i < n implies !f(#[trigger] rest[i]) by {
            assert(!f(s[i]));
        }
        if n < s.len() {
            lemma_filter_tail(rest, n, f);
            assert(rest.skip(n).push(s.last()) =~= s.skip(n));
        } else {
            lemma_filter_tail(rest, n - 1, f);
            assert(rest.skip(n - 1) =~= s.skip(n));
        }
    } else {
        assert(s.filter(f) =~= s.skip(n));
    }
}

} // verus!
