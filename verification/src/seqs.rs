//! Small general facts about duplicate-free sequences.

use vstd::prelude::*;

verus! {

/// No value occurs twice.
pub open spec fn distinct<A>(s: Seq<A>) -> bool {
    forall|i: int, j: int| 0 <= i < j < s.len() ==> s[i] != s[j]
}

/// Appending a value that is not yet present keeps a sequence duplicate-free.
pub proof fn lemma_distinct_push<A>(s: Seq<A>, x: A)
    requires
        distinct(s),
        !s.contains(x),
    ensures
        distinct(s.push(x)),
{
    assert forall|i: int, j: int| 0 <= i < j < s.push(x).len() implies s.push(x)[i] != s.push(x)[j] by {
        if j == s.len() {
            assert(s.push(x)[j] == x);
            assert(s.push(x)[i] == s[i]);
        }
    }
}

/// A sequence's set view holds exactly the sequence's values.
pub proof fn lemma_to_set_contains<A>(s: Seq<A>, x: A)
    ensures
        s.to_set().contains(x) == s.contains(x),
{
}

/// Concatenating two duplicate-free sequences with no value in common stays
/// duplicate-free.
pub proof fn lemma_distinct_append<A>(s: Seq<A>, t: Seq<A>)
    requires
        distinct(s),
        distinct(t),
        forall|y: A| #[trigger] t.contains(y) ==> !s.contains(y),
    ensures
        distinct(s + t),
{
    assert forall|i: int, j: int| 0 <= i < j < (s + t).len() implies (s + t)[i] != (s + t)[j] by {
        if j < s.len() {
            assert((s + t)[i] == s[i]);
            assert((s + t)[j] == s[j]);
        } else if i >= s.len() {
            assert((s + t)[i] == t[i - s.len()]);
            assert((s + t)[j] == t[j - s.len()]);
        } else {
            assert((s + t)[i] == s[i]);
            assert((s + t)[j] == t[j - s.len()]);
            assert(t.contains(t[j - s.len()]));
            assert(s.contains(s[i]));
        }
    }
}

/// Removing the first occurrence of a value at its known position is the same
/// as `remove_value`.
pub proof fn lemma_remove_value_is_remove_at<A>(s: Seq<A>, x: A, j: int)
    requires
        0 <= j < s.len(),
        s[j] == x,
        forall|k: int| 0 <= k < j ==> s[k] != x,
    ensures
        s.remove_value(x) == s.remove(j),
{
    s.index_of_first_ensures(x);
    let i = s.index_of_first(x).unwrap();
    if i < j {
        assert(s[i] != x);
    }
    if j < i {
        assert(s[j] != x);
    }
}

/// In a duplicate-free sequence, removing one occurrence of `x` removes `x`
/// and nothing else.
pub proof fn lemma_remove_value_distinct<A>(s: Seq<A>, x: A)
    requires
        distinct(s),
        s.contains(x),
    ensures
        s.remove_value(x).len() == s.len() - 1,
        distinct(s.remove_value(x)),
        forall|y: A| #[trigger] s.remove_value(x).contains(y) <==> (s.contains(y) && y != x),
{
    s.index_of_first_ensures(x);
    let i = s.index_of_first(x).unwrap();
    let t = s.remove(i);
    s.remove_ensures(i);
    assert(s.remove_value(x) == t);
    assert forall|p: int, q: int| 0 <= p < q < t.len() implies t[p] != t[q] by {
        let ps: int = if p < i { p } else { p + 1 };
        let qs: int = if q < i { q } else { q + 1 };
        assert(t[p] == s[ps]);
        assert(t[q] == s[qs]);
    }
    assert forall|y: A| #[trigger] t.contains(y) implies (s.contains(y) && y != x) by {
        let p = choose|p: int| 0 <= p < t.len() && t[p] == y;
        let ps: int = if p < i { p } else { p + 1 };
        assert(t[p] == s[ps]);
        assert(y != x) by {
            if ps != i {
                assert(s[ps] != s[i]);
            }
        }
    }
    assert forall|y: A| s.contains(y) && y != x implies #[trigger] t.contains(y) by {
        let p = choose|p: int| 0 <= p < s.len() && s[p] == y;
        if p < i {
            assert(t[p] == s[p]);
        } else {
            assert(p != i);
            assert(t[p - 1] == s[p]);
        }
    }
}

} // verus!
