//! Causal contexts: a value together with the clock under which it was read,
//! and the context that authorises one write.

use crate::clock::{counter_at, next_dot, Dot, VClock};
use vstd::prelude::*;

verus! {

/// A value read from the store, with the clock that was current at the read.
/// It carries no authority to write.
#[derive(Debug, Clone, PartialEq, Eq)]
pub struct ReadCtx<V> {
    /// The clock from which an `AddCtx` is derived.
    pub add_clock: VClock,
    /// The clock under which a removal of what was read would be made.
    pub rm_clock: VClock,
    /// What was read.
    pub val: V,
}

/// The authority for one causal event of one actor: the clock that includes
/// the event, and the event's dot.
#[derive(Debug, PartialEq, Eq)]
pub struct AddCtx {
    pub clock: VClock,
    pub dot: Dot,
}

impl Clone for AddCtx {
    fn clone(&self) -> (r: Self)
        ensures
            r.clock@ == self.clock@,
            r.dot == self.dot,
    {
        AddCtx { clock: self.clock.clone(), dot: self.dot }
    }
}

/// Calls `crdts::ctx::ReadCtx::derive_add_ctx` on a read context that holds
/// the given clocks. The contract claims what that function's body shows: the
/// new dot is the actor's next counter over `add_clock`, and the new clock is
/// `add_clock` with that dot recorded.
#[verifier::external_body]
fn derive_from_clocks(add_clock: &VClock, rm_clock: &VClock, actor: u32) -> (r: AddCtx)
    requires
        counter_at(add_clock@, actor) < u64::MAX,
    ensures
        r.dot.actor == actor,
        r.dot.counter == counter_at(add_clock@, actor) + 1,
        r.clock@ == add_clock@.insert(actor, r.dot.counter),
{
    let read = crdts::ctx::ReadCtx {
        add_clock: crdts::VClock { dots: add_clock.dots.clone() },
        rm_clock: crdts::VClock { dots: rm_clock.dots.clone() },
        val: (),
    };
    let ctx = read.derive_add_ctx(actor);
    AddCtx {
        clock: VClock { dots: ctx.clock.dots },
        dot: Dot { actor: ctx.dot.actor, counter: ctx.dot.counter },
    }
}

impl<V> ReadCtx<V> {
    /// The context that authorises `actor`'s next event after this read: its
    /// dot is the actor's counter in `add_clock` plus one, its clock is
    /// `add_clock` with that dot recorded. The counter must have room to grow.
    pub fn derive_add_ctx(&self, actor: u32) -> (r: AddCtx)
        requires
            counter_at(self.add_clock@, actor) < u64::MAX,
        ensures
            r.dot == next_dot(self.add_clock@, actor),
            r.clock@ == self.add_clock@.insert(actor, r.dot.counter),
    {
        derive_from_clocks(&self.add_clock, &self.rm_clock, actor)
    }
}

} // verus!
