//! Reading a line of text: trimming, fields between colons, decimal numbers.

use bstr::ByteSlice;
use vstd::prelude::*;
use vstd::utf8::{decode_utf8, valid_utf8};

verus! {

/// What `bstr::ByteSlice::trim` leaves of `bytes`: the bytes without the
/// white space, in the sense of Unicode, that leads and trails them.
pub uninterp spec fn trimmed(bytes: Seq<u8>) -> Seq<u8>;

/// The place of the first byte `mark` in `s`, or the length of `s` if it has
/// none.
pub open spec fn first_mark(s: Seq<u8>, mark: u8) -> int
    decreases s.len(),
{
    if s.len() == 0 || s[0] == mark {
        0
    } else {
        1 + first_mark(s.drop_first(), mark)
    }
}

/// The fields of `s` between the bytes `mark`: what stands before the first
/// of them, between each two that follow one another, and after the last. A
/// line without the mark is one field, and so is the empty line.
pub open spec fn fields_of(s: Seq<u8>, mark: u8) -> Seq<Seq<u8>>
    decreases s.len(),
{
    let at = first_mark(s, mark);
    if 0 <= at < s.len() {
        seq![s.subrange(0, at)] + fields_of(s.subrange(at + 1, s.len() as int), mark)
    } else {
        seq![s]
    }
}

/// The value of a decimal digit.
pub open spec fn digit_of(c: char) -> Option<nat> {
    if '0' <= c && c <= '9' {
        Some((c as u32 - '0' as u32) as nat)
    } else {
        None
    }
}

/// The number that the digits of `s` write, if `s` is one decimal digit or
/// more and nothing else.
pub open spec fn digits_value(s: Seq<char>) -> Option<nat>
    decreases s.len(),
{
    if s.len() == 0 {
        None
    } else if s.len() == 1 {
        digit_of(s[0])
    } else {
        match (digits_value(s.drop_last()), digit_of(s.last())) {
            (Some(upper), Some(unit)) => Some(upper * 10 + unit),
            _ => None,
        }
    }
}

/// The number that `s` writes, if `s` is decimal digits, with or without a
/// `+` before them, and the number is at most `max`.
pub open spec fn decimal(s: Seq<char>, max: nat) -> Option<nat> {
    let digits = if s.len() > 0 && s[0] == '+' {
        s.drop_first()
    } else {
        s
    };
    match digits_value(digits) {
        Some(value) => if value <= max {
            Some(value)
        } else {
            None
        },
        None => None,
    }
}

/// The number that the bytes of a field write, if they are text that writes
/// one of at most `max`.
pub open spec fn number_in(field: Seq<u8>, max: nat) -> Option<nat> {
    if valid_utf8(field) {
        decimal(decode_utf8(field), max)
    } else {
        None
    }
}

/// Calls `bstr::ByteSlice::trim`. Which bytes count as white space takes
/// the tables of Unicode to say, so the result has a name.
#[verifier::external_body]
pub(crate) fn trim_bytes(bytes: &[u8]) -> (r: &[u8])
    ensures
        r@ == trimmed(bytes@),
{
    bytes.trim()
}

/// Calls `bstr::ByteSlice::split_str` with the one byte `mark` as the
/// splitter and collects what it yields. The fields come in their order; two
/// marks side by side, and a mark at either end, give an empty field.
#[verifier::external_body]
pub(crate) fn split_fields(bytes: &[u8], mark: u8) -> (r: Vec<Vec<u8>>)
    ensures
        r.deep_view() == fields_of(bytes@, mark),
{
    bytes.split_str(&[mark]).map(|field| field.to_vec()).collect()
}

/// Calls `String::from_utf8` on a copy of the bytes: the text that they
/// encode, if they are UTF-8.
#[verifier::external_body]
pub(crate) fn text_of(bytes: &[u8]) -> (r: Option<String>)
    ensures
        match r {
            Some(text) => valid_utf8(bytes@) && text@ == decode_utf8(bytes@),
            None => !valid_utf8(bytes@),
        },
{
    String::from_utf8(bytes.to_vec()).ok()
}

/// Calls `str::parse` for a `u32`. It takes decimal digits, with or without
/// a `+` before them, whose number fits; anything else fails, the empty text
/// and a lone sign too.
#[verifier::external_body]
pub(crate) fn number_of(text: &str) -> (r: Option<u32>)
    ensures
        match r {
            Some(value) => decimal(text@, u32::MAX as nat) == Some(value as nat),
            None => decimal(text@, u32::MAX as nat) is None,
        },
{
    text.parse::<u32>().ok()
}

/// Whether two byte strings are equal.
pub fn same_bytes(a: &[u8], b: &[u8]) -> (r: bool)
    ensures
        r == (a@ == b@),
{
    if a.len() != b.len() {
        return false;
    }
    let mut i: usize = 0;
    while i < a.len()
        invariant
            a@.len() == b@.len(),
            i <= a@.len(),
            forall|j: int| 0 <= j < i ==> a@[j] == b@[j],
        decreases a.len() - i,
    {
        if a[i] != b[i] {
            return false;
        }
        i += 1;
    }
    assert(a@ =~= b@);
    true
}

/// The number that a field writes, if it writes one of at most `max`.
pub fn number_in_field(field: &[u8], max: u32) -> (r: Option<u32>)
    ensures
        match r {
            Some(value) => number_in(field@, max as nat) == Some(value as nat),
            None => number_in(field@, max as nat) is None,
        },
{
    match text_of(field) {
        None => None,
        Some(text) => match number_of(text.as_str()) {
            None => None,
            Some(value) => if value <= max {
                Some(value)
            } else {
                None
            },
        },
    }
}

} // verus!
