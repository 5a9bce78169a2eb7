//! Small operations on texts and lists of texts.

use vstd::prelude::*;
use vstd::string::StrSliceExecFns;
use vstd::string::StringExecFns;
use vstd::utf8::encode_utf8;
use vstd::utf8::valid_utf8;

verus! {

/// Whether `wanted` is one of `texts`.
pub fn has_text(texts: &Vec<String>, wanted: &String) -> (found: bool)
    ensures
        found == texts.deep_view().contains(wanted@),
{
    let mut i: usize = 0;
    while i < texts.len()
        invariant
            i <= texts.len(),
            forall|j: int| 0 <= j < i ==> texts.deep_view()[j] != wanted@,
        decreases texts.len() - i,
    {
        if texts[i] == *wanted {
            assert(texts.deep_view()[i as int] == wanted@);
            return true;
        }
        i += 1;
    }
    false
}

/// A copy of `texts`.
pub fn copy_texts(texts: &Vec<String>) -> (copy: Vec<String>)
    ensures
        copy.deep_view() == texts.deep_view(),
{
    let mut copy: Vec<String> = Vec::new();
    let mut i: usize = 0;
    while i < texts.len()
        invariant
            i <= texts.len(),
            copy.len() == i,
            forall|j: int| 0 <= j < i ==> copy[j]@ == texts[j]@,
        decreases texts.len() - i,
    {
        copy.push(texts[i].clone());
        i += 1;
    }
    assert(copy.deep_view() =~= texts.deep_view());
    copy
}

/// The texts `parts` one after the other, with `separator` between each two.
pub open spec fn joined(parts: Seq<Seq<char>>, separator: Seq<char>) -> Seq<char>
    decreases parts.len(),
{
    if parts.len() == 0 {
        Seq::empty()
    } else if parts.len() == 1 {
        parts[0]
    } else {
        joined(parts.drop_last(), separator) + separator + parts.last()
    }
}

/// The texts `parts` one after the other, with `separator` between each two.
pub fn join_texts(parts: &Vec<String>, separator: &str) -> (text: String)
    ensures
        text@ == joined(parts.deep_view(), separator@),
{
    let mut text = String::new();
    let mut i: usize = 0;
    assert(parts.deep_view().take(0) =~= Seq::empty());
    while i < parts.len()
        invariant
            i <= parts.len(),
            text@ == joined(parts.deep_view().take(i as int), separator@),
        decreases parts.len() - i,
    {
        let ghost before = text@;
        if i > 0 {
            text.append(separator);
        }
        text.append(parts[i].as_str());
        proof {
            let upto = parts.deep_view().take(i + 1);
            assert(upto.drop_last() =~= parts.deep_view().take(i as int));
            assert(upto.last() == parts[i as int]@);
            if i == 0 {
                assert(text@ =~= parts[i as int]@);
            }
        }
        i += 1;
    }
    assert(parts.deep_view().take(i as int) =~= parts.deep_view());
    text
}

/// The decimal digit for `d`.
pub open spec fn digit(d: nat) -> char {
    if d == 0 {
        '0'
    } else if d == 1 {
        '1'
    } else if d == 2 {
        '2'
    } else if d == 3 {
        '3'
    } else if d == 4 {
        '4'
    } else if d == 5 {
        '5'
    } else if d == 6 {
        '6'
    } else if d == 7 {
        '7'
    } else if d == 8 {
        '8'
    } else {
        '9'
    }
}

/// `n` in decimal digits, without leading zeros.
pub open spec fn decimal(n: nat) -> Seq<char>
    decreases n,
{
    if n < 10 {
        seq![digit(n)]
    } else {
        decimal(n / 10).push(digit(n % 10))
    }
}

fn digit_text(d: u64) -> (text: &'static str)
    requires
        d < 10,
    ensures
        text@ == seq![digit(d as nat)],
{
    proof {
        reveal_strlit("0");
        reveal_strlit("1");
        reveal_strlit("2");
        reveal_strlit("3");
        reveal_strlit("4");
        reveal_strlit("5");
        reveal_strlit("6");
        reveal_strlit("7");
        reveal_strlit("8");
        reveal_strlit("9");
    }
    let text = if d == 0 {
        "0"
    } else if d == 1 {
        "1"
    } else if d == 2 {
        "2"
    } else if d == 3 {
        "3"
    } else if d == 4 {
        "4"
    } else if d == 5 {
        "5"
    } else if d == 6 {
        "6"
    } else if d == 7 {
        "7"
    } else if d == 8 {
        "8"
    } else {
        "9"
    };
    assert(text@ =~= seq![digit(d as nat)]);
    text
}

/// `n` in decimal digits, without leading zeros.
pub fn decimal_text(n: u64) -> (text: String)
    ensures
        text@ == decimal(n as nat),
    decreases n,
{
    if n < 10 {
        String::from_str(digit_text(n))
    } else {
        let mut text = decimal_text(n / 10);
        text.append(digit_text(n % 10));
        assert(text@ =~= decimal(n as nat));
        text
    }
}

/// The message numbers `ids` as the mail store reads a set of them: in
/// decimal, with a comma between each two.
pub open spec fn sequence_set_of(ids: Seq<u32>) -> Seq<char> {
    joined(Seq::new(ids.len(), |i: int| decimal(ids[i] as nat)), ","@)
}

/// The message numbers `ids` as the mail store reads a set of them.
pub fn sequence_set(ids: &Vec<u32>) -> (text: String)
    ensures
        text@ == sequence_set_of(ids@),
{
    let mut numbers: Vec<String> = Vec::new();
    let mut i: usize = 0;
    while i < ids.len()
        invariant
            i <= ids.len(),
            numbers.len() == i,
            forall|j: int| 0 <= j < i ==> numbers[j]@ == decimal(ids[j] as nat),
        decreases ids.len() - i,
    {
        numbers.push(decimal_text(ids[i] as u64));
        i += 1;
    }
    assert(numbers.deep_view() =~= Seq::new(ids@.len(), |i: int| decimal(ids@[i] as nat)));
    join_texts(&numbers, ",")
}

/// `width` spaces.
pub open spec fn spaces(width: nat) -> Seq<char> {
    Seq::new(width, |i: int| ' ')
}

/// `text` in a column of `width` characters: cut after `width` characters
/// if it is longer, filled up with spaces on the right if it is shorter.
pub open spec fn fitted(text: Seq<char>, width: nat) -> Seq<char> {
    if text.len() >= width {
        text.take(width as int)
    } else {
        text + spaces((width - text.len()) as nat)
    }
}

/// `text` in a column of `width` characters.
pub fn fit_text(text: &str, width: usize) -> (column: String)
    ensures
        column@ == fitted(text@, width as nat),
        column@.len() == width,
{
    let length = text.unicode_len();
    if length >= width {
        let kept = text.substring_char(0, width);
        assert(kept@ =~= text@.take(width as int));
        String::from_str(kept)
    } else {
        let mut column = String::from_str(text);
        let mut filled: usize = length;
        proof {
            reveal_strlit(" ");
            assert(column@ =~= text@ + spaces(0));
        }
        while filled < width
            invariant
                length <= filled <= width,
                length == text@.len(),
                " "@ == seq![' '],
                column@ == text@ + spaces((filled - length) as nat),
            decreases width - filled,
        {
            column.append(" ");
            assert(column@ =~= text@ + spaces((filled + 1 - length) as nat));
            filled += 1;
        }
        column
    }
}

/// The text that `String::from_utf8_lossy` of the standard library makes of
/// `bytes`.
pub uninterp spec fn lossy_utf8(bytes: Seq<u8>) -> Seq<char>;

/// Calls `String::from_utf8_lossy` of the standard library, which is not
/// verified here. It is taken to be a function of the bytes alone, and to
/// give, for bytes that are UTF-8, the text that they encode. Of other bytes
/// nothing is said but the name of the result: there the standard library
/// puts a replacement character for each invalid sequence.
#[verifier::external_body]
pub(crate) fn decode_lossy(bytes: &Vec<u8>) -> (text: String)
    ensures
        text@ == lossy_utf8(bytes@),
        valid_utf8(bytes@) ==> encode_utf8(text@) == bytes@,
{
    String::from_utf8_lossy(bytes).into_owned()
}

/// The text of `bytes`, or `fallback` where there are none.
pub open spec fn lossy_or(bytes: Option<Seq<u8>>, fallback: Seq<char>) -> Seq<char> {
    match bytes {
        Some(bytes) => lossy_utf8(bytes),
        None => fallback,
    }
}

/// The text of `bytes`, or `fallback` where there are none.
pub fn decode_or(bytes: &Option<Vec<u8>>, fallback: &str) -> (text: String)
    ensures
        text@ == lossy_or(bytes.deep_view(), fallback@),
        bytes matches Some(given) ==> valid_utf8(given@) ==> encode_utf8(text@) == given@,
{
    match bytes {
        Some(bytes) => {
            assert(bytes.deep_view() =~= bytes@);
            decode_lossy(bytes)
        },
        None => String::from_str(fallback),
    }
}

} // verus!
