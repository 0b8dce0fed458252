//! A record: the observed-remove set of byte strings kept under one key.

use crate::clock::{
    advanced, dominates, forgotten, forgotten_all, is_blank, witnessed, Dot, VClock,
};
use crate::ctx::{AddCtx, ReadCtx};
use crate::document::op::{RecordOp, RecordOpView};
use vstd::prelude::*;

verus! {

/// One record of the document. The set itself is `crdts::Orswot`; what it
/// holds is known to the contracts through `set_clock`, `set_members` and
/// `set_deferred`.
#[verifier::external_body]
#[derive(Debug, PartialEq, Eq)]
pub struct OrswotRecord {
    pub(crate) inner: crdts::Orswot<Vec<u8>, u32>,
}

/// The clock of the set: every event it has applied.
pub uninterp spec fn set_clock(r: OrswotRecord) -> Map<u32, u64>;

/// The members of the set, each with the dots that keep it alive.
pub uninterp spec fn set_members(r: OrswotRecord) -> Map<Seq<u8>, Map<u32, u64>>;

/// The removals that the set holds back until it has seen what they remove:
/// for each of their clocks, the members that it is to remove.
pub uninterp spec fn set_deferred(r: OrswotRecord) -> Map<Map<u32, u64>, Set<Seq<u8>>>;

/// What a record holds.
pub struct RecordView {
    /// Every event that the record has applied.
    pub clock: Map<u32, u64>,
    /// The members, each with the dots that keep it alive.
    pub members: Map<Seq<u8>, Map<u32, u64>>,
    /// The removals held back: for each clock, the members that it targets.
    pub deferred: Map<Map<u32, u64>, Set<Seq<u8>>>,
}

impl RecordView {
    /// The record that has seen nothing.
    pub open spec fn empty() -> RecordView {
        RecordView { clock: Map::empty(), members: Map::empty(), deferred: Map::empty() }
    }

    /// The dots of `member`, none if it is absent.
    pub open spec fn dots_of(self, member: Seq<u8>) -> Map<u32, u64> {
        if self.members.contains_key(member) {
            self.members[member]
        } else {
            Map::empty()
        }
    }

    /// The record holds no removal back.
    pub open spec fn holds_nothing_back(self) -> bool {
        forall|clock: Map<u32, u64>| !self.deferred.contains_key(clock)
    }

    /// The members that the removal held back under `clock` targets, none if
    /// none is held back under it.
    pub open spec fn targets_of(self, clock: Map<u32, u64>) -> Set<Seq<u8>> {
        if self.deferred.contains_key(clock) {
            self.deferred[clock]
        } else {
            Set::empty()
        }
    }

    /// The clocks of the removals held back that target `member`.
    pub open spec fn held_against(self, member: Seq<u8>) -> Set<Map<u32, u64>> {
        Set::new(
            |clock: Map<u32, u64>|
                self.deferred.contains_key(clock) && self.deferred[clock].contains(member),
        )
    }

    /// A removal held back targets `member`.
    pub open spec fn is_targeted(self, member: Seq<u8>) -> bool {
        exists|clock: Map<u32, u64>| #[trigger] self.held_against(member).contains(clock)
    }

    /// A removal under `clock` is held back, because `clock` has seen what
    /// the record has not: the two clocks differ, and `clock` dominates the
    /// record's or is not dominated by it.
    pub open spec fn holds_back(self, clock: Map<u32, u64>) -> bool {
        clock != self.clock && (dominates(clock, self.clock) || !dominates(self.clock, clock))
    }

    /// The record after the event `dot` has added `added`, before the
    /// removals held back are applied again: nothing changes if the record
    /// has seen the dot; otherwise each added member gains the dot and the
    /// clock records it.
    pub open spec fn with_members_only(self, dot: Dot, added: Seq<Seq<u8>>) -> RecordView {
        if witnessed(self.clock, dot) {
            self
        } else {
            RecordView {
                clock: advanced(self.clock, dot),
                members: Map::new(
                    |m: Seq<u8>| self.members.contains_key(m) || added.contains(m),
                    |m: Seq<u8>|
                        if added.contains(m) {
                            advanced(self.dots_of(m), dot)
                        } else {
                            self.members[m]
                        },
                ),
                deferred: self.deferred,
            }
        }
    }

    /// The record after every removal held back is applied again: a member
    /// that one of them targets loses the dots that the clocks of those have
    /// seen, and leaves the record if none is left. Those removals stay held
    /// back that `holds_back` still holds back.
    pub open spec fn replayed(self) -> RecordView {
        RecordView {
            clock: self.clock,
            members: Map::new(
                |m: Seq<u8>|
                    self.members.contains_key(m) && (self.is_targeted(m) ==> !is_blank(
                        forgotten_all(self.members[m], self.held_against(m)),
                    )),
                |m: Seq<u8>| forgotten_all(self.members[m], self.held_against(m)),
            ),
            deferred: self.deferred.restrict(Set::new(|clock: Map<u32, u64>| self.holds_back(clock))),
        }
    }

    /// The record after the event `dot` has added `added`: nothing changes if
    /// the record has seen the dot; otherwise the members are added as
    /// `with_members_only` says, and then every removal held back is applied
    /// again.
    pub open spec fn with_members(self, dot: Dot, added: Seq<Seq<u8>>) -> RecordView {
        if witnessed(self.clock, dot) {
            self
        } else {
            self.with_members_only(dot, added).replayed()
        }
    }

    /// The record after the removal of `removed` under `clock`: each of them
    /// that is a member loses the dots that `clock` has seen, and leaves the
    /// record if none is left. The clock stays. Where `holds_back` says so,
    /// the removal is held back: its targets join those held back under the
    /// same clock.
    pub open spec fn with_removal(self, clock: Map<u32, u64>, removed: Seq<Seq<u8>>) -> RecordView {
        RecordView {
            clock: self.clock,
            members: Map::new(
                |m: Seq<u8>|
                    self.members.contains_key(m) && (removed.contains(m) ==> !is_blank(
                        forgotten(self.members[m], clock),
                    )),
                |m: Seq<u8>|
                    if removed.contains(m) {
                        forgotten(self.members[m], clock)
                    } else {
                        self.members[m]
                    },
            ),
            deferred: if self.holds_back(clock) {
                self.deferred.insert(clock, self.targets_of(clock).union(removed.to_set()))
            } else {
                self.deferred
            },
        }
    }

    /// The record without what any clock of `seen` has seen: its clock, the
    /// dots of every member and the clock of every removal held back lose
    /// what those clocks have seen; a member or a removal with no dot left
    /// leaves the record. A removal keeps its targets. Where two removals
    /// come to stand under one clock, which of their targets stay is not
    /// said: see `keeps_apart`.
    pub open spec fn without_all(self, seen: Set<Map<u32, u64>>) -> RecordView {
        RecordView {
            clock: forgotten_all(self.clock, seen),
            members: Map::new(
                |m: Seq<u8>|
                    self.members.contains_key(m) && !is_blank(
                        forgotten_all(self.members[m], seen),
                    ),
                |m: Seq<u8>| forgotten_all(self.members[m], seen),
            ),
            deferred: Map::new(
                |c: Map<u32, u64>|
                    !is_blank(c) && exists|held: Map<u32, u64>|
                        self.deferred.contains_key(held) && c == #[trigger] forgotten_all(
                            held,
                            seen,
                        ),
                |c: Map<u32, u64>|
                    self.deferred[choose|held: Map<u32, u64>|
                        self.deferred.contains_key(held) && c == #[trigger] forgotten_all(held, seen)],
            ),
        }
    }

    /// Forgetting what the clocks of `seen` have seen brings no two
    /// removals held back to stand under one clock, unless that clock is
    /// blank and both leave the record.
    pub open spec fn keeps_apart(self, seen: Set<Map<u32, u64>>) -> bool {
        forall|one: Map<u32, u64>, other: Map<u32, u64>|
            self.deferred.contains_key(one) && self.deferred.contains_key(other)
                && #[trigger] forgotten_all(one, seen) == #[trigger] forgotten_all(other, seen)
                && !is_blank(forgotten_all(one, seen)) ==> one == other
    }

    /// The record without what `seen` has seen.
    pub open spec fn without_seen(self, seen: Map<u32, u64>) -> RecordView {
        self.without_all(set![seen])
    }

    /// The two records hold the same but for the targets of the removals
    /// that they hold back: the same clock, the same members with the same
    /// dots, and removals held back under the same clocks.
    pub open spec fn agrees_but_for_targets(self, other: RecordView) -> bool {
        &&& self.clock == other.clock
        &&& self.members == other.members
        &&& self.deferred.dom() == other.deferred.dom()
    }

    /// The record after `op`.
    pub open spec fn edited(self, op: RecordOpView) -> RecordView {
        match op {
            RecordOpView::Add { dot, members } => self.with_members(dot, members),
            RecordOpView::Rm { clock, members } => self.with_removal(clock, members),
        }
    }
}

impl View for OrswotRecord {
    type V = RecordView;

    open spec fn view(&self) -> RecordView {
        RecordView {
            clock: set_clock(*self),
            members: set_members(*self),
            deferred: set_deferred(*self),
        }
    }
}

/// Calls `crdts::Orswot::new`, which makes a set with an empty clock, no
/// member and no deferred removal.
#[verifier::external_body]
fn fresh_set() -> (r: OrswotRecord)
    ensures
        set_clock(r) == RecordView::empty().clock,
        set_members(r) == RecordView::empty().members,
        set_deferred(r) == RecordView::empty().deferred,
{
    OrswotRecord { inner: crdts::Orswot::new() }
}

/// Calls `clone` on the `crdts::Orswot`, which copies clock, members and
/// deferred removals as they are.
#[verifier::external_body]
fn copy_set(r: &OrswotRecord) -> (c: OrswotRecord)
    ensures
        c == *r,
{
    OrswotRecord { inner: r.inner.clone() }
}

/// Calls `crdts::Orswot::read`. That function hands out the set's clock
/// twice and the keys of its member table, in the order in which the table
/// walks them: so each member comes once, and the order is left open.
#[verifier::external_body]
fn read_set(r: &OrswotRecord) -> (ctx: ReadCtx<Vec<Vec<u8>>>)
    ensures
        ctx.add_clock@ == set_clock(*r),
        ctx.rm_clock@ == set_clock(*r),
        ctx.val.deep_view().no_duplicates(),
        ctx.val.deep_view().to_set() == set_members(*r).dom(),
{
    let read = r.inner.read();
    ReadCtx {
        add_clock: VClock { dots: read.add_clock.dots },
        rm_clock: VClock { dots: read.rm_clock.dots },
        val: read.val.into_iter().collect(),
    }
}

/// Calls `crdts::Orswot::add_all`, which builds the operation
/// `Add { dot: ctx.dot, members }` with the members in the order given and
/// reads nothing of the set.
#[verifier::external_body]
fn add_all_to_set(r: &OrswotRecord, members: Vec<Vec<u8>>, ctx: AddCtx) -> (op: RecordOp)
    ensures
        op@ == (RecordOpView::Add { dot: ctx.dot, members: members.deep_view() }),
{
    let outside = crdts::ctx::AddCtx {
        clock: crdts::VClock { dots: ctx.clock.dots },
        dot: crdts::Dot::new(ctx.dot.actor, ctx.dot.counter),
    };
    match r.inner.add_all(members, outside) {
        crdts::orswot::Op::Add { dot, members } => RecordOp::Add {
            dot: Dot { actor: dot.actor, counter: dot.counter },
            members,
        },
        crdts::orswot::Op::Rm { clock, members } => RecordOp::Rm {
            clock: VClock { dots: clock.dots },
            members,
        },
    }
}

/// Calls `crdts::Orswot::add`, which builds the operation
/// `Add { dot: ctx.dot, members }` with `member` as the only member and reads
/// nothing of the set.
#[verifier::external_body]
fn add_to_set(r: &OrswotRecord, member: Vec<u8>, ctx: AddCtx) -> (op: RecordOp)
    ensures
        op@ == (RecordOpView::Add { dot: ctx.dot, members: seq![member@] }),
{
    let outside = crdts::ctx::AddCtx {
        clock: crdts::VClock { dots: ctx.clock.dots },
        dot: crdts::Dot::new(ctx.dot.actor, ctx.dot.counter),
    };
    match r.inner.add(member, outside) {
        crdts::orswot::Op::Add { dot, members } => RecordOp::Add {
            dot: Dot { actor: dot.actor, counter: dot.counter },
            members,
        },
        crdts::orswot::Op::Rm { clock, members } => RecordOp::Rm {
            clock: VClock { dots: clock.dots },
            members,
        },
    }
}

/// What applying `op` to the set `pre` leaves in `post`: the set is `edited`.
/// An addition whose dot the set has seen changes nothing.
pub open spec fn edit_outcome(pre: OrswotRecord, op: RecordOpView, post: OrswotRecord) -> bool {
    &&& op is Add && witnessed(pre@.clock, op->dot) ==> post == pre
    &&& post@ == pre@.edited(op)
}

/// Calls `apply` of `crdts::CmRDT` on the `crdts::Orswot`, with the
/// operation written in the crate's types. The contract is `edit_outcome`: it
/// claims what the bodies of that function, of `apply_rm` and of
/// `apply_deferred` show. The removals held back are walked in the order of
/// their hash table; what they leave does not depend on that order.
#[verifier::external_body]
fn apply_to_set(r: &mut OrswotRecord, op: RecordOp)
    ensures
        edit_outcome(*old(r), op@, *final(r)),
{
    let outside = match op {
        RecordOp::Add { dot, members } => crdts::orswot::Op::Add {
            dot: crdts::Dot::new(dot.actor, dot.counter),
            members,
        },
        RecordOp::Rm { clock, members } => crdts::orswot::Op::Rm {
            clock: crdts::VClock { dots: clock.dots },
            members,
        },
    };
    crdts::CmRDT::apply(&mut r.inner, outside)
}

impl Clone for OrswotRecord {
    fn clone(&self) -> (r: Self)
        ensures
            r == *self,
    {
        copy_set(self)
    }
}

impl OrswotRecord {
    /// The empty record.
    pub fn new() -> (r: Self)
        ensures
            r@ == RecordView::empty(),
    {
        fresh_set()
    }

    /// The members of the record, each once and in no promised order, with
    /// the record's clock as the context of the read.
    pub fn read(&self) -> (ctx: ReadCtx<Vec<Vec<u8>>>)
        ensures
            ctx.add_clock@ == self@.clock,
            ctx.rm_clock@ == self@.clock,
            ctx.val.deep_view().no_duplicates(),
            ctx.val.deep_view().to_set() == self@.members.dom(),
    {
        read_set(self)
    }

    /// The operation that adds `member` as the event that `ctx` authorises.
    /// The record itself is not changed: the operation has to be applied.
    pub fn add(&self, member: Vec<u8>, ctx: AddCtx) -> (op: RecordOp)
        ensures
            op@ == (RecordOpView::Add { dot: ctx.dot, members: seq![member@] }),
    {
        add_to_set(self, member, ctx)
    }

    /// Applies `op` to the record: it is `edited`.
    ///
    /// The clock never goes back, and after an addition it has seen the
    /// addition's dot. An addition whose dot the record had seen changes
    /// nothing, so applying an addition twice is applying it once.
    pub fn apply(&mut self, op: RecordOp)
        ensures
            edit_outcome(*old(self), op@, *final(self)),
            final(self)@ == old(self)@.edited(op@),
            dominates(final(self)@.clock, old(self)@.clock),
            op@ is Add ==> witnessed(final(self)@.clock, op@->dot),
    {
        apply_to_set(self, op);
    }

    /// The operation that adds all of `members` as the one event that `ctx`
    /// authorises.
    pub fn add_all(&self, members: Vec<Vec<u8>>, ctx: AddCtx) -> (op: RecordOp)
        ensures
            op@ == (RecordOpView::Add { dot: ctx.dot, members: members.deep_view() }),
    {
        add_all_to_set(self, members, ctx)
    }
}

} // verus!
