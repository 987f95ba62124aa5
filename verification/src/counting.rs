//! Counting how often a value stands in a sequence.

use vstd::prelude::*;

verus! {

/// How many positions of `s` hold `v`.
pub open spec fn occurrences<T>(s: Seq<T>, v: T) -> nat
    decreases s.len(),
{
    if s.len() == 0 {
        0
    } else {
        occurrences(s.drop_last(), v) + if s.last() == v {
            1nat
        } else {
            0nat
        }
    }
}

/// A sequence that holds `v` everywhere holds it as often as it is long.
pub proof fn lemma_occurrences_everywhere<T>(s: Seq<T>, v: T)
    requires
        forall|i: int| 0 <= i < s.len() ==> s[i] == v,
    ensures
        occurrences(s, v) == s.len(),
    decreases s.len(),
{
    if s.len() > 0 {
        lemma_occurrences_everywhere(s.drop_last(), v);
    }
}

/// A sequence that holds `v` nowhere holds it zero times, and the other way round.
pub proof fn lemma_occurrences_nowhere<T>(s: Seq<T>, v: T)
    ensures
        occurrences(s, v) == 0 <==> forall|i: int| 0 <= i < s.len() ==> s[i] != v,
    decreases s.len(),
{
    if s.len() > 0 {
        lemma_occurrences_nowhere(s.drop_last(), v);
        if occurrences(s, v) == 0 {
            assert forall|i: int| 0 <= i < s.len() implies s[i] != v by {
                if i < s.len() - 1 {
                    assert(s.drop_last()[i] == s[i]);
                }
            }
        } else if s.last() != v {
            let i = choose|i: int| 0 <= i < s.len() - 1 && s.drop_last()[i] == v;
            assert(s[i] == v);
        }
    }
}

/// Two sequences in which `a` and `b` stand at the same positions hold them
/// equally often.
pub proof fn lemma_occurrences_matching<T, U>(s: Seq<T>, a: T, t: Seq<U>, b: U)
    requires
        s.len() == t.len(),
        forall|i: int| 0 <= i < s.len() ==> (s[i] == a <==> t[i] == b),
    ensures
        occurrences(s, a) == occurrences(t, b),
    decreases s.len(),
{
    if s.len() > 0 {
        lemma_occurrences_matching(s.drop_last(), a, t.drop_last(), b);
    }
}

/// Writing `new` over position `i` takes one occurrence from the value that
/// stood there and gives one to `new`.
pub proof fn lemma_occurrences_update<T>(s: Seq<T>, i: int, new: T, v: T)
    requires
        0 <= i < s.len(),
    ensures
        occurrences(s.update(i, new), v) + (if s[i] == v {
            1nat
        } else {
            0nat
        }) == occurrences(s, v) + (if new == v {
            1nat
        } else {
            0nat
        }),
    decreases s.len(),
{
    let after = s.update(i, new);
    if i == s.len() - 1 {
        assert(after.drop_last() =~= s.drop_last());
    } else {
        assert(after.drop_last() =~= s.drop_last().update(i, new));
        lemma_occurrences_update(s.drop_last(), i, new, v);
    }
}

} // verus!
