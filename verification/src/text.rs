//! Conversions between bytes, numbers and text.

use vstd::prelude::*;
use vstd::utf8::{decode_utf8, valid_utf8};

verus! {

/// The text that a lossy decoding makes of bytes: their decoding where they
/// are valid UTF-8, and otherwise a text in which replacement characters
/// stand for the invalid parts.
pub uninterp spec fn utf8_lossy(bytes: Seq<u8>) -> Seq<char>;

/// A text as a JSON string: in double quotes, with the characters escaped
/// that JSON asks to be.
pub uninterp spec fn json_quoted(text: Seq<char>) -> Seq<char>;

/// A text with an underscore in the place of every space.
pub open spec fn underscored(text: Seq<char>) -> Seq<char> {
    Seq::new(
        text.len(),
        |i: int|
            if text[i] == ' ' {
                '_'
            } else {
                text[i]
            },
    )
}

/// The texts that a sequence of strings holds.
pub open spec fn string_views(v: Seq<String>) -> Seq<Seq<char>> {
    Seq::new(v.len(), |i: int| v[i]@)
}

/// The items of a sequence without repetitions: each item stands where it
/// first occurs.
pub open spec fn first_occurrences<T>(s: Seq<T>) -> Seq<T>
    decreases s.len(),
{
    if s.len() == 0 {
        Seq::<T>::empty()
    } else {
        let before = first_occurrences(s.drop_last());
        if before.contains(s.last()) {
            before
        } else {
            before.push(s.last())
        }
    }
}

/// One decimal digit as text.
pub open spec fn decimal_digit(d: nat) -> Seq<char> {
    if d == 0 {
        "0"@
    } else if d == 1 {
        "1"@
    } else if d == 2 {
        "2"@
    } else if d == 3 {
        "3"@
    } else if d == 4 {
        "4"@
    } else if d == 5 {
        "5"@
    } else if d == 6 {
        "6"@
    } else if d == 7 {
        "7"@
    } else if d == 8 {
        "8"@
    } else {
        "9"@
    }
}

/// A number in decimal, without leading zeros.
pub open spec fn decimal_text(n: nat) -> Seq<char>
    decreases n,
{
    if n < 10 {
        decimal_digit(n)
    } else {
        decimal_text(n / 10) + decimal_digit(n % 10)
    }
}

/// Calls `String::from_utf8_lossy`. The contract names the result and
/// claims that valid UTF-8 is decoded as it stands.
#[verifier::external_body]
pub(crate) fn lossy_string(bytes: &[u8]) -> (r: String)
    ensures
        r@ == utf8_lossy(bytes@),
        valid_utf8(bytes@) ==> r@ == decode_utf8(bytes@),
{
    String::from_utf8_lossy(bytes).into_owned()
}

/// A text with `to` in the place of every `from`.
pub open spec fn replaced(text: Seq<char>, from: char, to: Seq<char>) -> Seq<char>
    decreases text.len(),
{
    if text.len() == 0 {
        Seq::<char>::empty()
    } else {
        replaced(text.drop_last(), from, to) + (if text.last() == from {
            to
        } else {
            seq![text.last()]
        })
    }
}

/// Calls `str::replace` with a character to look for: every occurrence of
/// the character gives way to the replacement, and every other character
/// stays.
#[verifier::external_body]
fn replace_char(text: &str, from: char, to: &str) -> (r: String)
    ensures
        r@ == replaced(text@, from, to@),
{
    text.replace(from, to)
}

/// To replace every space by an underscore is to put an underscore in the
/// place of every space.
proof fn lemma_replaced_spaces(text: Seq<char>)
    ensures
        replaced(text, ' ', seq!['_']) == underscored(text),
    decreases text.len(),
{
    if text.len() > 0 {
        lemma_replaced_spaces(text.drop_last());
        assert(underscored(text) =~= underscored(text.drop_last()) + (if text.last() == ' ' {
            seq!['_']
        } else {
            seq![text.last()]
        }));
    } else {
        assert(underscored(text) =~= Seq::<char>::empty());
    }
}

/// A text with an underscore in the place of every space.
pub(crate) fn replace_spaces(text: &str) -> (r: String)
    ensures
        r@ == underscored(text@),
{
    proof {
        reveal_strlit("_");
        assert("_"@ =~= seq!['_']);
        lemma_replaced_spaces(text@);
    }
    replace_char(text, ' ', "_")
}

/// Calls `serde_json::to_string` on a text. The contract names what the
/// call returns, and claims that the call succeeds: the string is written
/// into a vector in memory, which takes every write, and the writing of a
/// text reports no other failure.
#[verifier::external_body]
pub(crate) fn json_quote(text: &str) -> (r: Option<String>)
    ensures
        r is Some,
        r matches Some(quoted) ==> quoted@ == json_quoted(text@),
{
    serde_json::to_string(text).ok()
}

fn digit_str(d: usize) -> (r: &'static str)
    requires
        d < 10,
    ensures
        r@ == decimal_digit(d as nat),
{
    if d == 0 {
        "0"
    } else if d == 1 {
        "1"
    } else if d == 2 {
        "2"
    } else if d == 3 {
        "3"
    } else if d == 4 {
        "4"
    } else if d == 5 {
        "5"
    } else if d == 6 {
        "6"
    } else if d == 7 {
        "7"
    } else if d == 8 {
        "8"
    } else {
        "9"
    }
}

/// Writes a number in decimal.
pub fn decimal_string(n: usize) -> (r: String)
    ensures
        r@ == decimal_text(n as nat),
    decreases n,
{
    if n < 10 {
        String::from_str(digit_str(n))
    } else {
        let mut s = decimal_string(n / 10);
        s.append(digit_str(n % 10));
        s
    }
}

} // verus!
