//! The order of texts: that of their UTF-8 bytes, compared one by one.

use vstd::prelude::*;
use vstd::utf8::encode_utf8;
use vstd::utf8::encode_utf8_decode_utf8;

verus! {

/// Whether `a` comes before `b` when both agree up to position `from`: at
/// the first position from there on where they differ `a` has the smaller
/// byte, or `a` ends there and `b` goes on.
pub open spec fn bytes_before_from(a: Seq<u8>, b: Seq<u8>, from: int) -> bool
    decreases a.len() - from,
{
    if from >= b.len() {
        false
    } else if from >= a.len() {
        true
    } else if a[from] != b[from] {
        a[from] < b[from]
    } else {
        bytes_before_from(a, b, from + 1)
    }
}

/// Whether the text `a` comes strictly before the text `b`.
pub open spec fn text_before(a: Seq<char>, b: Seq<char>) -> bool {
    bytes_before_from(encode_utf8(a), encode_utf8(b), 0)
}

/// Whether the texts of `s` stand in strictly ascending order.
pub open spec fn ascending(s: Seq<Seq<char>>) -> bool {
    forall|i: int, j: int| 0 <= i < j < s.len() ==> text_before(#[trigger] s[i], #[trigger] s[j])
}

proof fn lemma_bytes_compare(a: Seq<u8>, b: Seq<u8>, from: int)
    requires
        0 <= from <= a.len(),
        from <= b.len(),
        forall|k: int| 0 <= k < from ==> a[k] == b[k],
    ensures
        a == b || bytes_before_from(a, b, from) || bytes_before_from(b, a, from),
        !(bytes_before_from(a, b, from) && bytes_before_from(b, a, from)),
        a == b ==> !bytes_before_from(a, b, from),
    decreases a.len() - from,
{
    if from == a.len() && from == b.len() {
        assert(a =~= b);
    } else if from < a.len() && from < b.len() && a[from] == b[from] {
        lemma_bytes_compare(a, b, from + 1);
    }
}

proof fn lemma_bytes_chain(a: Seq<u8>, b: Seq<u8>, c: Seq<u8>, from: int)
    requires
        0 <= from,
        bytes_before_from(a, b, from),
        bytes_before_from(b, c, from),
    ensures
        bytes_before_from(a, c, from),
    decreases a.len() - from,
{
    if from < a.len() && a[from] == b[from] && b[from] == c[from] {
        lemma_bytes_chain(a, b, c, from + 1);
    }
}

/// Of two texts, either they are equal or exactly one comes before the
/// other.
pub proof fn lemma_text_order_total(a: Seq<char>, b: Seq<char>)
    ensures
        a == b || text_before(a, b) || text_before(b, a),
        !(text_before(a, b) && text_before(b, a)),
        a == b ==> !text_before(a, b),
{
    lemma_bytes_compare(encode_utf8(a), encode_utf8(b), 0);
    encode_utf8_decode_utf8(a);
    encode_utf8_decode_utf8(b);
}

/// What comes before a text comes before all that the text comes before.
pub proof fn lemma_text_order_transitive(a: Seq<char>, b: Seq<char>, c: Seq<char>)
    requires
        text_before(a, b),
        text_before(b, c),
    ensures
        text_before(a, c),
{
    lemma_bytes_chain(encode_utf8(a), encode_utf8(b), encode_utf8(c), 0);
}

/// Whether `a` comes strictly before `b`.
pub fn comes_before(a: &String, b: &String) -> (before: bool)
    ensures
        before == text_before(a@, b@),
{
    let x = a.as_str().as_bytes();
    let y = b.as_str().as_bytes();
    let mut i: usize = 0;
    while i < x.len() && i < y.len()
        invariant
            i <= x.len(),
            i <= y.len(),
            x@ == encode_utf8(a@),
            y@ == encode_utf8(b@),
            text_before(a@, b@) == bytes_before_from(x@, y@, i as int),
        decreases x.len() - i,
    {
        if x[i] != y[i] {
            return x[i] < y[i];
        }
        i += 1;
    }
    i < y.len()
}

/// Puts `text` at its place in the ascending list `texts`, unless it is
/// there already.
pub(crate) fn insert_text(texts: &mut Vec<String>, text: &String)
    requires
        ascending(old(texts).deep_view()),
    ensures
        ascending(final(texts).deep_view()),
        forall|t: Seq<char>|
            #![trigger final(texts).deep_view().contains(t)]
            #![trigger old(texts).deep_view().contains(t)]
            final(texts).deep_view().contains(t) <==> (old(texts).deep_view().contains(t) || t
                == text@),
{
    let ghost before = texts.deep_view();
    let mut at: usize = 0;
    while at < texts.len() && comes_before(&texts[at], text)
        invariant
            at <= texts.len(),
            texts.deep_view() == before,
            forall|j: int| 0 <= j < at ==> text_before(#[trigger] before[j], text@),
        decreases texts.len() - at,
    {
        at += 1;
    }
    if at < texts.len() && texts[at] == *text {
        assert(before[at as int] == text@);
        return ;
    }
    proof {
        assert forall|j: int| 0 <= j < at implies before[j] != text@ by {
            lemma_text_order_total(before[j], text@);
        }
        assert forall|j: int| at <= j < before.len() implies text_before(
            text@,
            #[trigger] before[j],
        ) by {
            lemma_text_order_total(text@, before[at as int]);
            if j > at {
                lemma_text_order_transitive(text@, before[at as int], before[j]);
            }
        }
    }
    texts.insert(at, text.clone());
    proof {
        let after = texts.deep_view();
        assert(after =~= before.insert(at as int, text@));
        assert forall|i: int, j: int| 0 <= i < j < after.len() implies text_before(
            #[trigger] after[i],
            #[trigger] after[j],
        ) by {
            if i < at && j > at {
                assert(text_before(before[i], before[j - 1]));
            } else if i > at {
                assert(text_before(before[i - 1], before[j - 1]));
            } else if j < at {
                assert(text_before(before[i], before[j]));
            }
        }
        assert forall|t: Seq<char>| after.contains(t) <==> (before.contains(t) || t
            == text@) by {
            if after.contains(t) {
                let k = choose|k: int| 0 <= k < after.len() && after[k] == t;
                if k < at {
                    assert(before[k] == t);
                } else if k > at {
                    assert(before[k - 1] == t);
                }
            }
            if before.contains(t) {
                let k = choose|k: int| 0 <= k < before.len() && before[k] == t;
                if k < at {
                    assert(after[k] == t);
                } else {
                    assert(after[k + 1] == t);
                }
            }
            if t == text@ {
                assert(after[at as int] == t);
            }
        }
    }
}

} // verus!
