//! Searching and filtering sequences: where the first or the last element
//! that meets a condition stands, and what a filter keeps.

use vstd::prelude::*;

verus! {

/// `i` is where the first element that meets `p` stands.
pub open spec fn is_first<A>(s: Seq<A>, p: spec_fn(A) -> bool, i: int) -> bool {
    &&& 0 <= i < s.len()
    &&& p(s[i])
    &&& forall|j: int| 0 <= j < i ==> !p(#[trigger] s[j])
}

/// `i` is where the last element that meets `p` stands.
pub open spec fn is_last<A>(s: Seq<A>, p: spec_fn(A) -> bool, i: int) -> bool {
    &&& 0 <= i < s.len()
    &&& p(s[i])
    &&& forall|j: int| i < j < s.len() ==> !p(#[trigger] s[j])
}

/// Some element of `s` meets `p`.
pub open spec fn any<A>(s: Seq<A>, p: spec_fn(A) -> bool) -> bool {
    exists|i: int| 0 <= i < s.len() && p(#[trigger] s[i])
}

/// Where the first element that meets `p` stands, if there is one.
pub open spec fn first_index<A>(s: Seq<A>, p: spec_fn(A) -> bool) -> Option<int> {
    if any(s, p) {
        Some(choose|i: int| is_first(s, p, i))
    } else {
        None
    }
}

/// Where the last element that meets `p` stands, if there is one.
pub open spec fn last_index<A>(s: Seq<A>, p: spec_fn(A) -> bool) -> Option<int> {
    if any(s, p) {
        Some(choose|i: int| is_last(s, p, i))
    } else {
        None
    }
}

/// The first element that meets `p`, if there is one.
pub open spec fn first_match<A>(s: Seq<A>, p: spec_fn(A) -> bool) -> Option<A> {
    match first_index(s, p) {
        Some(i) => Some(s[i]),
        None => None,
    }
}

/// The last element that meets `p`, if there is one.
pub open spec fn last_match<A>(s: Seq<A>, p: spec_fn(A) -> bool) -> Option<A> {
    match last_index(s, p) {
        Some(i) => Some(s[i]),
        None => None,
    }
}

/// How many elements of `s` meet `p`.
pub open spec fn count<A>(s: Seq<A>, p: spec_fn(A) -> bool) -> nat {
    s.filter(p).len()
}

/// Only one place can be the first that meets `p`.
pub proof fn lemma_first_index_is<A>(s: Seq<A>, p: spec_fn(A) -> bool, i: int)
    requires
        is_first(s, p, i),
    ensures
        first_index(s, p) == Some(i),
{
    let c = choose|k: int| is_first(s, p, k);
    assert(is_first(s, p, c));
    if c < i {
        assert(!p(s[c]));
    } else if i < c {
        assert(!p(s[i]));
    }
}

/// Only one place can be the last that meets `p`.
pub proof fn lemma_last_index_is<A>(s: Seq<A>, p: spec_fn(A) -> bool, i: int)
    requires
        is_last(s, p, i),
    ensures
        last_index(s, p) == Some(i),
{
    let c = choose|k: int| is_last(s, p, k);
    assert(is_last(s, p, c));
    if c < i {
        assert(!p(s[i]));
    } else if i < c {
        assert(!p(s[c]));
    }
}

/// Where some element meets `p`, one of them is the first.
pub proof fn lemma_first_exists<A>(s: Seq<A>, p: spec_fn(A) -> bool)
    requires
        any(s, p),
    ensures
        first_index(s, p) is Some,
        is_first(s, p, first_index(s, p)->0),
    decreases s.len(),
{
    let w = choose|i: int| 0 <= i < s.len() && p(#[trigger] s[i]);
    lemma_first_up_to(s, p, w);
    let c = choose|i: int| is_first(s, p, i);
    assert(is_first(s, p, c));
}

/// An element that meets `p` has a first one at or before it.
proof fn lemma_first_up_to<A>(s: Seq<A>, p: spec_fn(A) -> bool, w: int)
    requires
        0 <= w < s.len(),
        p(s[w]),
    ensures
        exists|i: int| is_first(s, p, i),
    decreases w,
{
    if exists|j: int| 0 <= j < w && p(#[trigger] s[j]) {
        let j = choose|j: int| 0 <= j < w && p(#[trigger] s[j]);
        lemma_first_up_to(s, p, j);
    } else {
        assert(is_first(s, p, w));
    }
}

/// Where some element meets `p`, one of them is the last.
pub proof fn lemma_last_exists<A>(s: Seq<A>, p: spec_fn(A) -> bool)
    requires
        any(s, p),
    ensures
        last_index(s, p) is Some,
        is_last(s, p, last_index(s, p)->0),
{
    let w = choose|i: int| 0 <= i < s.len() && p(#[trigger] s[i]);
    lemma_last_from(s, p, w);
    let c = choose|i: int| is_last(s, p, i);
    assert(is_last(s, p, c));
}

/// An element that meets `p` has a last one at or behind it.
proof fn lemma_last_from<A>(s: Seq<A>, p: spec_fn(A) -> bool, w: int)
    requires
        0 <= w < s.len(),
        p(s[w]),
    ensures
        exists|i: int| is_last(s, p, i),
    decreases s.len() - w,
{
    if exists|j: int| w < j < s.len() && p(#[trigger] s[j]) {
        let j = choose|j: int| w < j < s.len() && p(#[trigger] s[j]);
        lemma_last_from(s, p, j);
    } else {
        assert(is_last(s, p, w));
    }
}

/// One more element in, a filter keeps it or not.
pub proof fn lemma_filter_step<A>(s: Seq<A>, p: spec_fn(A) -> bool, i: int)
    requires
        0 <= i < s.len(),
    ensures
        s.take(i + 1).filter(p) == if p(s[i]) {
            s.take(i).filter(p).push(s[i])
        } else {
            s.take(i).filter(p)
        },
{
    reveal(Seq::filter);
    assert(s.take(i + 1).drop_last() =~= s.take(i));
    assert(s.take(i + 1).last() == s[i]);
}

/// Nothing taken, nothing kept; all taken, the whole filter.
pub proof fn lemma_filter_ends<A>(s: Seq<A>, p: spec_fn(A) -> bool)
    ensures
        s.take(0).filter(p) == Seq::<A>::empty(),
        s.take(s.len() as int) == s,
{
    reveal(Seq::filter);
    assert(s.take(0) =~= Seq::<A>::empty());
    assert(s.take(s.len() as int) =~= s);
}

/// What a filter keeps meets its condition and stood in the sequence.
pub proof fn lemma_filter_keeps<A>(s: Seq<A>, p: spec_fn(A) -> bool)
    ensures
        forall|i: int|
            0 <= i < s.filter(p).len() ==> p(#[trigger] s.filter(p)[i]) && s.contains(
                s.filter(p)[i],
            ),
        s.filter(p).len() <= s.len(),
    decreases s.len(),
{
    reveal(Seq::filter);
    if s.len() > 0 {
        let t = s.drop_last();
        lemma_filter_keeps(t, p);
        assert forall|i: int| 0 <= i < s.filter(p).len() implies p(#[trigger] s.filter(p)[i])
            && s.contains(s.filter(p)[i]) by {
            if i < t.filter(p).len() {
                assert(s.filter(p)[i] == t.filter(p)[i]);
                let k = choose|k: int| 0 <= k < t.len() && t[k] == t.filter(p)[i];
                assert(s[k] == s.filter(p)[i]);
            } else {
                assert(s[s.len() - 1] == s.filter(p)[i]);
            }
        }
    }
}

/// An element that meets the condition stays in the filter.
pub proof fn lemma_filter_holds<A>(s: Seq<A>, p: spec_fn(A) -> bool, i: int)
    requires
        0 <= i < s.len(),
        p(s[i]),
    ensures
        s.filter(p).contains(s[i]),
    decreases s.len(),
{
    reveal(Seq::filter);
    let t = s.drop_last();
    if i == s.len() - 1 {
        assert(s.filter(p)[s.filter(p).len() - 1] == s[i]);
    } else {
        lemma_filter_holds(t, p, i);
        let k = choose|k: int| 0 <= k < t.filter(p).len() && t.filter(p)[k] == t[i];
        assert(s.filter(p)[k] == s[i]);
    }
}

/// A filter that keeps everything keeps the sequence.
pub proof fn lemma_filter_all<A>(s: Seq<A>, p: spec_fn(A) -> bool)
    requires
        forall|i: int| 0 <= i < s.len() ==> p(#[trigger] s[i]),
    ensures
        s.filter(p) == s,
    decreases s.len(),
{
    reveal(Seq::filter);
    if s.len() > 0 {
        let t = s.drop_last();
        assert forall|i: int| 0 <= i < t.len() implies p(#[trigger] t[i]) by {
            assert(p(s[i]));
        }
        lemma_filter_all(t, p);
        assert(p(s[s.len() - 1]));
        assert(s.filter(p) =~= s);
    }
}

/// A filter that keeps nothing is empty.
pub proof fn lemma_filter_none<A>(s: Seq<A>, p: spec_fn(A) -> bool)
    requires
        !any(s, p),
    ensures
        s.filter(p) == Seq::<A>::empty(),
    decreases s.len(),
{
    reveal(Seq::filter);
    if s.len() > 0 {
        let t = s.drop_last();
        assert(!any(t, p)) by {
            if any(t, p) {
                let k = choose|k: int| 0 <= k < t.len() && p(#[trigger] t[k]);
                assert(p(s[k]));
            }
        }
        lemma_filter_none(t, p);
        assert(!p(s[s.len() - 1]));
    }
}

/// A filter that keeps all that meets `q` keeps the first that does.
pub proof fn lemma_filter_first<A>(s: Seq<A>, p: spec_fn(A) -> bool, q: spec_fn(A) -> bool)
    requires
        forall|x: A| q(x) ==> #[trigger] p(x),
    ensures
        first_match(s.filter(p), q) == first_match(s, q),
    decreases s.len(),
{
    reveal(Seq::filter);
    if s.len() == 0 {
        assert(s.filter(p) =~= s);
    } else {
        let t = s.drop_last();
        lemma_filter_first(t, p, q);
        lemma_first_of_push(t, s.last(), q);
        assert(t.push(s.last()) =~= s);
        if p(s.last()) {
            lemma_first_of_push(t.filter(p), s.last(), q);
            assert(s.filter(p) =~= t.filter(p).push(s.last()));
        } else {
            assert(s.filter(p) =~= t.filter(p));
        }
    }
}

/// With one more element the first that meets `q` is the same, or it is new.
pub proof fn lemma_first_of_push<A>(s: Seq<A>, x: A, q: spec_fn(A) -> bool)
    ensures
        first_match(s.push(x), q) == if any(s, q) {
            first_match(s, q)
        } else if q(x) {
            Some(x)
        } else {
            None
        },
{
    let t = s.push(x);
    if any(s, q) {
        lemma_first_exists(s, q);
        let f = first_index(s, q)->0;
        assert(is_first(t, q, f)) by {
            assert forall|j: int| 0 <= j < f implies !q(#[trigger] t[j]) by {
                assert(!q(s[j]));
            }
        }
        lemma_first_index_is(t, q, f);
    } else if q(x) {
        assert(is_first(t, q, s.len() as int)) by {
            assert forall|j: int| 0 <= j < s.len() implies !q(#[trigger] t[j]) by {
                assert(!q(s[j]));
            }
        }
        lemma_first_index_is(t, q, s.len() as int);
    } else if any(t, q) {
        let k = choose|k: int| 0 <= k < t.len() && q(#[trigger] t[k]);
        if k < s.len() {
            assert(q(s[k]));
        }
    }
}

} // verus!
