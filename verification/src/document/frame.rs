//! The frame of a message: a number of four bytes, then the body.

use vstd::prelude::*;

verus! {

/// The four bytes that write `x`, lowest first.
pub open spec fn word_bytes(x: u32) -> Seq<u8> {
    seq![
        (x % 256) as u8,
        ((x / 256) % 256) as u8,
        ((x / 65536) % 256) as u8,
        (x / 16777216) as u8,
    ]
}

/// The number that the first four bytes write, lowest first.
pub open spec fn word_of(bytes: Seq<u8>) -> u32
    recommends
        bytes.len() >= 4,
{
    (bytes[0] as int + bytes[1] as int * 256 + bytes[2] as int * 65536 + bytes[3] as int
        * 16777216) as u32
}

/// The number that leads a message.
pub open spec fn leading_tag(bytes: Seq<u8>) -> u32
    recommends
        bytes.len() >= 4,
{
    word_of(bytes)
}

/// What follows the leading number of a message.
pub open spec fn payload(bytes: Seq<u8>) -> Seq<u8>
    recommends
        bytes.len() >= 4,
{
    bytes.subrange(4, bytes.len() as int)
}

/// A message: the number `tag`, then `body`.
pub open spec fn framed(tag: u32, body: Seq<u8>) -> Seq<u8> {
    word_bytes(tag) + body
}

/// Four bytes write the number that they were written from.
pub proof fn lemma_word(x: u32)
    ensures
        word_bytes(x).len() == 4,
        word_of(word_bytes(x)) == x,
{
}

/// A framed message gives back its number and its body.
pub proof fn lemma_framed(tag: u32, body: Seq<u8>)
    ensures
        framed(tag, body).len() == 4 + body.len(),
        leading_tag(framed(tag, body)) == tag,
        payload(framed(tag, body)) == body,
{
    lemma_word(tag);
    let whole = framed(tag, body);
    assert(whole[0] == word_bytes(tag)[0]);
    assert(whole[1] == word_bytes(tag)[1]);
    assert(whole[2] == word_bytes(tag)[2]);
    assert(whole[3] == word_bytes(tag)[3]);
    assert(payload(whole) =~= body);
}

/// Writes `x` as four bytes, lowest first.
pub fn write_word(x: u32) -> (r: Vec<u8>)
    ensures
        r@ == word_bytes(x),
{
    let mut out: Vec<u8> = Vec::new();
    out.push((x % 256) as u8);
    out.push(((x / 256) % 256) as u8);
    out.push(((x / 65536) % 256) as u8);
    out.push((x / 16777216) as u8);
    assert(out@ =~= word_bytes(x));
    out
}

/// Reads the number that leads a message, and what follows it. A message of
/// fewer than four bytes has neither.
pub fn split_frame(bytes: &[u8]) -> (r: Option<(u32, &[u8])>)
    ensures
        match r {
            Some((tag, rest)) => bytes@.len() >= 4 && tag == leading_tag(bytes@) && rest@
                == payload(bytes@),
            None => bytes@.len() < 4,
        },
{
    if bytes.len() < 4 {
        None
    } else {
        let b0: u32 = bytes[0] as u32;
        let b1: u32 = bytes[1] as u32;
        let b2: u32 = bytes[2] as u32;
        let b3: u32 = bytes[3] as u32;
        let tag: u32 = b0 + b1 * 256 + b2 * 65536 + b3 * 16777216;
        Some((tag, vstd::slice::slice_subrange(bytes, 4, bytes.len())))
    }
}

/// Writes a message: the number `tag`, then `body`.
pub fn frame(tag: u32, body: &Vec<u8>) -> (r: Vec<u8>)
    ensures
        r@ == framed(tag, body@),
{
    let mut out = write_word(tag);
    let mut i: usize = 0;
    while i < body.len()
        invariant
            i <= body.len(),
            out@ == word_bytes(tag) + body@.subrange(0, i as int),
        decreases body.len() - i,
    {
        out.push(body[i]);
        assert(body@.subrange(0, i as int).push(body@[i as int]) =~= body@.subrange(
            0,
            i + 1 as int,
        ));
        i += 1;
    }
    assert(body@.subrange(0, body@.len() as int) =~= body@);
    out
}

} // verus!
