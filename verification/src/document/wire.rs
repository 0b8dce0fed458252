//! The payloads of the wire format, which `bincode` writes and reads.

use crate::clock::{Dot, VClock};
use crate::ctx::{AddCtx, ReadCtx};
use crate::document::op::{DocumentOp, DocumentOpView, RecordOp};
use crate::document::record::{OrswotRecord, RecordView};
use crate::document::store::{DocumentView, RecordMap};
use crdts::map::Op as OutsideOp;
use crdts::orswot::Op as OutsideEdit;
use crdts::Dot as OutsideDot;
use crdts::VClock as OutsideClock;
use vstd::prelude::*;

verus! {

type OutsideSet = crdts::Orswot<Vec<u8>, u32>;

type OutsideMapOp = OutsideOp<u32, OutsideSet, u32>;

/// What `bincode::deserialize` reads from `bytes` as an add context, a key
/// and a string, in this order: the context's clock and dot, the key and the
/// string, or nothing where it fails.
pub uninterp spec fn decoded_addition(bytes: Seq<u8>) -> Option<
    (Map<u32, u64>, Dot, u32, Seq<char>),
>;

/// What `bincode::deserialize` reads from `bytes` as an operation of
/// `crdts::Map`, or nothing where it fails.
pub uninterp spec fn decoded_op(bytes: Seq<u8>) -> Option<DocumentOpView>;

/// What `bincode::deserialize` reads from `bytes` as a `crdts::Map`, or
/// nothing where it fails.
pub uninterp spec fn decoded_map(bytes: Seq<u8>) -> Option<DocumentView>;

/// What `bincode::deserialize` reads from `bytes` as the read context of a
/// record that may be absent: `add_clock`, `rm_clock` and the record, or
/// nothing where it fails.
pub uninterp spec fn decoded_record_ctx(bytes: Seq<u8>) -> Option<
    (Map<u32, u64>, Map<u32, u64>, Option<RecordView>),
>;

/// What `bincode::deserialize` reads from `bytes` as a read context without
/// a value: `add_clock` and `rm_clock`, or nothing where it fails.
pub uninterp spec fn decoded_read_ctx(bytes: Seq<u8>) -> Option<(Map<u32, u64>, Map<u32, u64>)>;

/// Calls `bincode::serialize` on the context, the key and the string as one
/// tuple. The contract claims that `bincode::deserialize` reads from the
/// bytes what was written.
/// The call gives bytes for every value: `serialize` sets no size limit
/// and writes to a vector, and the one other failure of bincode's
/// serializer, a sequence or map without a length, does not arise, since
/// every collection in the value gives its length.
#[verifier::external_body]
pub(crate) fn encode_addition(ctx: &AddCtx, key: u32, content: &String) -> (r: Option<Vec<u8>>)
    ensures
        r is Some,
        r is Some ==> decoded_addition(r->0@) == Some((ctx.clock@, ctx.dot, key, content@)),
{
    let outside = crdts::ctx::AddCtx {
        clock: OutsideClock { dots: ctx.clock.dots.clone() },
        dot: OutsideDot::new(ctx.dot.actor, ctx.dot.counter),
    };
    bincode::serialize(&(outside, key, content)).ok()
}

/// Calls `bincode::deserialize` for an add context, a key and a string as
/// one tuple. Bytes that follow the tuple are ignored.
#[verifier::external_body]
pub(crate) fn decode_addition(bytes: &[u8]) -> (r: Option<(AddCtx, u32, String)>)
    ensures
        match r {
            Some(v) => decoded_addition(bytes@) == Some((v.0.clock@, v.0.dot, v.1, v.2@)),
            None => decoded_addition(bytes@) is None,
        },
{
    let (ctx, key, content): (crdts::ctx::AddCtx<u32>, u32, String) = bincode::deserialize(bytes).ok()?;
    let dot = Dot { actor: ctx.dot.actor, counter: ctx.dot.counter };
    Some((AddCtx { clock: VClock { dots: ctx.clock.dots }, dot }, key, content))
}

/// Calls `bincode::serialize` on the operation, written as an operation of
/// `crdts::Map`. The contract claims that `bincode::deserialize` reads from
/// the bytes what was written.
/// The call gives bytes for every value: `serialize` sets no size limit
/// and writes to a vector, and the one other failure of bincode's
/// serializer, a sequence or map without a length, does not arise, since
/// every collection in the value gives its length.
#[verifier::external_body]
pub(crate) fn encode_op(op: DocumentOp) -> (r: Option<Vec<u8>>)
    ensures
        r is Some,
        r is Some ==> decoded_op(r->0@) == Some(op@),
{
    let outside: OutsideMapOp = match op {
        DocumentOp::Rm { clock, keyset } => OutsideOp::Rm { clock: OutsideClock { dots: clock.dots }, keyset },
        DocumentOp::Up { dot, key, op: RecordOp::Add { dot: inner, members } } => OutsideOp::Up {
            dot: OutsideDot::new(dot.actor, dot.counter),
            key,
            op: OutsideEdit::Add { dot: OutsideDot::new(inner.actor, inner.counter), members },
        },
        DocumentOp::Up { dot, key, op: RecordOp::Rm { clock, members } } => OutsideOp::Up {
            dot: OutsideDot::new(dot.actor, dot.counter),
            key,
            op: OutsideEdit::Rm { clock: OutsideClock { dots: clock.dots }, members },
        },
    };
    bincode::serialize(&outside).ok()
}

/// Calls `bincode::deserialize` for an operation of `crdts::Map` and writes
/// it in the crate's types. Bytes that follow the operation are ignored.
#[verifier::external_body]
pub(crate) fn decode_op(bytes: &[u8]) -> (r: Option<DocumentOp>)
    ensures
        match r {
            Some(op) => decoded_op(bytes@) == Some(op@),
            None => decoded_op(bytes@) is None,
        },
{
    let outside: OutsideMapOp = bincode::deserialize(bytes).ok()?;
    Some(match outside {
        OutsideOp::Rm { clock, keyset } => DocumentOp::Rm { clock: VClock { dots: clock.dots }, keyset },
        OutsideOp::Up { dot, key, op: OutsideEdit::Add { dot: inner, members } } => DocumentOp::Up {
            dot: Dot { actor: dot.actor, counter: dot.counter },
            key,
            op: RecordOp::Add { dot: Dot { actor: inner.actor, counter: inner.counter }, members },
        },
        OutsideOp::Up { dot, key, op: OutsideEdit::Rm { clock, members } } => DocumentOp::Up {
            dot: Dot { actor: dot.actor, counter: dot.counter },
            key,
            op: RecordOp::Rm { clock: VClock { dots: clock.dots }, members },
        },
    })
}

/// Calls `bincode::serialize` on the `crdts::Map`. The order in which the
/// members of a record are written is left to their hash table, so the bytes
/// are not named; the contract claims that `bincode::deserialize` reads from
/// them a map that holds what this one holds.
/// The call gives bytes for every value: `serialize` sets no size limit
/// and writes to a vector, and the one other failure of bincode's
/// serializer, a sequence or map without a length, does not arise, since
/// every collection in the value gives its length.
#[verifier::external_body]
pub(crate) fn encode_map(m: &RecordMap) -> (r: Option<Vec<u8>>)
    ensures
        r is Some,
        r is Some ==> decoded_map(r->0@) == Some(m@),
{
    bincode::serialize(&m.inner).ok()
}

/// Calls `bincode::deserialize` for a `crdts::Map`. Bytes that follow the
/// map are ignored.
#[verifier::external_body]
pub(crate) fn decode_map(bytes: &[u8]) -> (r: Option<RecordMap>)
    ensures
        match r {
            Some(m) => decoded_map(bytes@) == Some(m@),
            None => decoded_map(bytes@) is None,
        },
{
    let inner = bincode::deserialize(bytes).ok()?;
    Some(RecordMap { inner })
}

/// Calls `bincode::serialize` on the read context of a record, written as a
/// `crdts::ctx::ReadCtx`. The contract claims that `bincode::deserialize`
/// reads from the bytes a context that holds what this one holds.
/// The call gives bytes for every value: `serialize` sets no size limit
/// and writes to a vector, and the one other failure of bincode's
/// serializer, a sequence or map without a length, does not arise, since
/// every collection in the value gives its length.
#[verifier::external_body]
pub(crate) fn encode_record_ctx(ctx: &ReadCtx<Option<OrswotRecord>>) -> (r: Option<Vec<u8>>)
    ensures
        r is Some,
        r is Some ==> decoded_record_ctx(r->0@) == Some(
            (
                ctx.add_clock@,
                ctx.rm_clock@,
                match ctx.val {
                    Some(record) => Some(record@),
                    None => None,
                },
            ),
        ),
{
    let outside = crdts::ctx::ReadCtx {
        add_clock: OutsideClock { dots: ctx.add_clock.dots.clone() },
        rm_clock: OutsideClock { dots: ctx.rm_clock.dots.clone() },
        val: ctx.val.as_ref().map(|record| &record.inner),
    };
    bincode::serialize(&outside).ok()
}

/// Calls `bincode::deserialize` for the read context of a record that may
/// be absent. Bytes that follow the context are ignored.
#[verifier::external_body]
pub(crate) fn decode_record_ctx(bytes: &[u8]) -> (r: Option<ReadCtx<Option<OrswotRecord>>>)
    ensures
        match r {
            Some(ctx) => decoded_record_ctx(bytes@) == Some(
                (
                    ctx.add_clock@,
                    ctx.rm_clock@,
                    match ctx.val {
                        Some(record) => Some(record@),
                        None => None,
                    },
                ),
            ),
            None => decoded_record_ctx(bytes@) is None,
        },
{
    let outside: crdts::ctx::ReadCtx<Option<OutsideSet>, u32> = bincode::deserialize(bytes).ok()?;
    Some(ReadCtx {
        add_clock: VClock { dots: outside.add_clock.dots },
        rm_clock: VClock { dots: outside.rm_clock.dots },
        val: outside.val.map(|inner| OrswotRecord { inner }),
    })
}

/// Calls `bincode::serialize` on a read context without a value, written as
/// a `crdts::ctx::ReadCtx`. The contract claims that `bincode::deserialize`
/// reads from the bytes the two clocks that were written.
/// The call gives bytes for every value: `serialize` sets no size limit
/// and writes to a vector, and the one other failure of bincode's
/// serializer, a sequence or map without a length, does not arise, since
/// every collection in the value gives its length.
#[verifier::external_body]
pub(crate) fn encode_read_ctx(ctx: &ReadCtx<()>) -> (r: Option<Vec<u8>>)
    ensures
        r is Some,
        r is Some ==> decoded_read_ctx(r->0@) == Some((ctx.add_clock@, ctx.rm_clock@)),
{
    let outside = crdts::ctx::ReadCtx {
        add_clock: OutsideClock { dots: ctx.add_clock.dots.clone() },
        rm_clock: OutsideClock { dots: ctx.rm_clock.dots.clone() },
        val: (),
    };
    bincode::serialize(&outside).ok()
}

/// Calls `bincode::deserialize` for a read context without a value. Bytes
/// that follow the context are ignored.
#[verifier::external_body]
pub(crate) fn decode_read_ctx(bytes: &[u8]) -> (r: Option<ReadCtx<()>>)
    ensures
        match r {
            Some(ctx) => decoded_read_ctx(bytes@) == Some((ctx.add_clock@, ctx.rm_clock@)),
            None => decoded_read_ctx(bytes@) is None,
        },
{
    let outside: crdts::ctx::ReadCtx<(), u32> = bincode::deserialize(bytes).ok()?;
    Some(ReadCtx {
        add_clock: VClock { dots: outside.add_clock.dots },
        rm_clock: VClock { dots: outside.rm_clock.dots },
        val: (),
    })
}

} // verus!
