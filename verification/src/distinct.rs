//! Sequences without repetition: what is left of a sequence when only the
//! first occurrence of each element is kept.

use vstd::prelude::*;

verus! {

/// The elements of `s`, each once, in the order of their first occurrence.
pub open spec fn first_seen<T>(s: Seq<T>) -> Seq<T>
    decreases s.len(),
{
    if s.len() == 0 {
        Seq::empty()
    } else {
        let before = first_seen(s.drop_last());
        if before.contains(s.last()) {
            before
        } else {
            before.push(s.last())
        }
    }
}

/// The position at which `x` first occurs in `s`; `s.len()` if it does not
/// occur.
pub open spec fn first_position<T>(s: Seq<T>, x: T) -> int
    decreases s.len(),
{
    if s.len() == 0 {
        0
    } else if s.drop_last().contains(x) {
        first_position(s.drop_last(), x)
    } else if s.last() == x {
        s.len() - 1
    } else {
        s.len() as int
    }
}

/// `first_seen` of a sequence grown by one element.
pub proof fn lemma_first_seen_push<T>(s: Seq<T>, x: T)
    ensures
        first_seen(s.push(x)) == if first_seen(s).contains(x) {
            first_seen(s)
        } else {
            first_seen(s).push(x)
        },
{
    assert(s.push(x).drop_last() == s);
    assert(s.push(x).last() == x);
}

/// `first_seen` holds exactly the elements of the sequence.
pub proof fn lemma_first_seen_contains<T>(s: Seq<T>, x: T)
    ensures
        first_seen(s).contains(x) <==> s.contains(x),
    decreases s.len(),
{
    if s.len() > 0 {
        let front = s.drop_last();
        lemma_first_seen_contains(front, x);
        let before = first_seen(front);
        if s.contains(x) {
            let i = choose|i: int| 0 <= i < s.len() && s[i] == x;
            if i < s.len() - 1 {
                assert(front[i] == x);
                assert(before.contains(x));
                if !before.contains(s.last()) {
                    let k = choose|k: int| 0 <= k < before.len() && before[k] == x;
                    assert(before.push(s.last())[k] == x);
                }
            } else {
                assert(s.last() == x);
                if !before.contains(x) {
                    assert(before.push(x)[before.len() as int] == x);
                }
            }
        }
        if first_seen(s).contains(x) {
            let k = choose|k: int| 0 <= k < first_seen(s).len() && first_seen(s)[k] == x;
            if k < before.len() {
                assert(before[k] == x);
                let i = choose|i: int| 0 <= i < front.len() && front[i] == x;
                assert(s[i] == x);
            } else {
                assert(s[s.len() - 1] == x);
            }
        }
    }
}

/// `first_seen` repeats nothing.
pub proof fn lemma_first_seen_no_duplicates<T>(s: Seq<T>)
    ensures
        first_seen(s).no_duplicates(),
    decreases s.len(),
{
    if s.len() > 0 {
        lemma_first_seen_no_duplicates(s.drop_last());
    }
}

/// The position of the first occurrence is in range exactly for the elements
/// of the sequence, and is where the element stands for the first time.
pub proof fn lemma_first_position<T>(s: Seq<T>, x: T)
    ensures
        0 <= first_position(s, x) <= s.len(),
        s.contains(x) <==> first_position(s, x) < s.len(),
        s.contains(x) ==> s[first_position(s, x)] == x,
        forall|i: int| 0 <= i < first_position(s, x) ==> s[i] != x,
    decreases s.len(),
{
    if s.len() > 0 {
        let front = s.drop_last();
        lemma_first_position(front, x);
        if front.contains(x) {
            let i = choose|i: int| 0 <= i < front.len() && front[i] == x;
            assert(s[i] == x);
            assert forall|i: int| 0 <= i < first_position(s, x) implies s[i] != x by {
                assert(s[i] == front[i]);
            }
        } else {
            assert forall|i: int| 0 <= i < s.len() - 1 implies s[i] != x by {
                assert(front[i] == s[i]);
            }
            if s.last() == x {
                assert(s[s.len() - 1] == x);
            } else if s.contains(x) {
                let i = choose|i: int| 0 <= i < s.len() && s[i] == x;
                assert(front[i] == x);
            }
        }
    }
}

/// `first_seen` keeps the order of first occurrence: of two of its elements,
/// the earlier one also occurs first in the sequence.
pub proof fn lemma_first_seen_order<T>(s: Seq<T>, i: int, j: int)
    requires
        0 <= i < j < first_seen(s).len(),
    ensures
        first_position(s, first_seen(s)[i]) < first_position(s, first_seen(s)[j]),
    decreases s.len(),
{
    let front = s.drop_last();
    let before = first_seen(front);
    let a = first_seen(s)[i];
    let b = first_seen(s)[j];
    assert(before[i] == a);
    lemma_first_seen_contains(front, a);
    lemma_first_position(front, a);
    lemma_first_position(s, a);
    if j < before.len() {
        assert(before[j] == b);
        lemma_first_seen_contains(front, b);
        lemma_first_seen_order(front, i, j);
    } else {
        lemma_first_seen_contains(front, b);
        lemma_first_position(s, b);
    }
}

/// A sequence that repeats nothing is its own `first_seen`.
pub proof fn lemma_first_seen_of_distinct<T>(s: Seq<T>)
    requires
        s.no_duplicates(),
    ensures
        first_seen(s) == s,
    decreases s.len(),
{
    if s.len() > 0 {
        let front = s.drop_last();
        lemma_first_seen_of_distinct(front);
        if front.contains(s.last()) {
            let i = choose|i: int| 0 <= i < front.len() && front[i] == s.last();
            assert(s[i] == s[s.len() - 1]);
        }
        assert(s =~= front.push(s.last()));
    } else {
        assert(s =~= Seq::empty());
    }
}

} // verus!
