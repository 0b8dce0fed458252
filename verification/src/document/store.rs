//! The map from keys to records, with its aggregate clock.

use crate::clock::{
    advanced, dominates, forgotten, forgotten_all, is_blank, witnessed, Dot, VClock,
};
use crate::ctx::ReadCtx;
use crate::document::op::{DocumentOp, DocumentOpView, RecordOp, RecordOpView};
use crate::document::record::{OrswotRecord, RecordView};
use crdts::map::Op as OutsideOp;
use crdts::orswot::Op as OutsideEdit;
use crdts::Dot as OutsideDot;
use crdts::VClock as OutsideClock;
use vstd::prelude::*;

verus! {

/// The records of a document by key. The map itself is `crdts::Map`; what it
/// holds is known to the contracts through `map_clock`, `map_entries` and
/// `map_deferred`.
#[verifier::external_body]
#[derive(Debug, PartialEq, Eq)]
pub struct RecordMap {
    pub(crate) inner: crdts::Map<u32, crdts::Orswot<Vec<u8>, u32>, u32>,
}

/// The aggregate clock of the map: every update it has applied.
pub uninterp spec fn map_clock(m: RecordMap) -> Map<u32, u64>;

/// For each key that the map holds, in this order: the clock of the entry,
/// the clock of its record, the members of its record each with its dots,
/// and the removals that its record holds back, each clock with the members
/// that it targets.
pub uninterp spec fn map_entries(m: RecordMap) -> Map<
    u32,
    (
        Map<u32, u64>,
        Map<u32, u64>,
        Map<Seq<u8>, Map<u32, u64>>,
        Map<Map<u32, u64>, Set<Seq<u8>>>,
    ),
>;

/// The removals of keys that the map holds back until it has seen what they
/// remove: for each of their clocks, the keys that it is to remove.
pub uninterp spec fn map_deferred(m: RecordMap) -> Map<Map<u32, u64>, Set<u32>>;

/// What the map holds under one key.
pub struct EntryView {
    /// The events that edited this entry.
    pub clock: Map<u32, u64>,
    /// The record.
    pub record: RecordView,
}

/// What a document holds.
pub struct DocumentView {
    /// The aggregate clock.
    pub clock: Map<u32, u64>,
    /// The entries by key.
    pub entries: Map<u32, EntryView>,
    /// The removals of keys held back: for each clock, the keys that it
    /// targets.
    pub deferred: Map<Map<u32, u64>, Set<u32>>,
}

impl DocumentView {
    /// The document that has seen nothing.
    pub open spec fn empty() -> DocumentView {
        DocumentView { clock: Map::empty(), entries: Map::empty(), deferred: Map::empty() }
    }

    /// The record under `key`, the empty record if the key is absent.
    pub open spec fn record_at(self, key: u32) -> RecordView {
        if self.entries.contains_key(key) {
            self.entries[key].record
        } else {
            RecordView::empty()
        }
    }

    /// The clock of the entry under `key`, empty if the key is absent.
    pub open spec fn entry_clock_at(self, key: u32) -> Map<u32, u64> {
        if self.entries.contains_key(key) {
            self.entries[key].clock
        } else {
            Map::empty()
        }
    }

    /// The document holds no removal of keys back.
    pub open spec fn holds_nothing_back(self) -> bool {
        forall|clock: Map<u32, u64>| !self.deferred.contains_key(clock)
    }

    /// No removal is held back, neither of a key nor of a member.
    pub open spec fn settled(self) -> bool {
        &&& self.holds_nothing_back()
        &&& forall|key: u32| #[trigger]
            self.entries.contains_key(key) ==> self.entries[key].record.holds_nothing_back()
    }

    /// The aggregate clock dominates the clock of every record.
    pub open spec fn covers_records(self) -> bool {
        forall|key: u32| #[trigger]
            self.entries.contains_key(key) ==> dominates(self.clock, self.entries[key].record.clock)
    }

    /// The document is settled and its aggregate clock dominates the clock
    /// of every record.
    pub open spec fn coherent(self) -> bool {
        self.settled() && self.covers_records()
    }

    /// The keys that the removal held back under `clock` targets, none if
    /// none is held back under it.
    pub open spec fn targets_of(self, clock: Map<u32, u64>) -> Set<u32> {
        if self.deferred.contains_key(clock) {
            self.deferred[clock]
        } else {
            Set::empty()
        }
    }

    /// The clocks of the removals held back that target `key`.
    pub open spec fn held_against(self, key: u32) -> Set<Map<u32, u64>> {
        Set::new(
            |clock: Map<u32, u64>|
                self.deferred.contains_key(clock) && self.deferred[clock].contains(key),
        )
    }

    /// A removal held back targets `key`.
    pub open spec fn is_targeted(self, key: u32) -> bool {
        exists|clock: Map<u32, u64>| #[trigger] self.held_against(key).contains(clock)
    }

    /// The document after the update `dot` has added `added` to the record
    /// under `key` as the record's event `inner`, where no removal is held
    /// back: the entry is made if it is absent, its clock and the aggregate
    /// clock record `dot`, and the record takes the members.
    pub open spec fn with_addition(self, dot: Dot, key: u32, inner: Dot, added: Seq<Seq<u8>>)
        -> DocumentView {
        DocumentView {
            clock: advanced(self.clock, dot),
            entries: self.entries.insert(
                key,
                EntryView {
                    clock: advanced(self.entry_clock_at(key), dot),
                    record: self.record_at(key).with_members_only(inner, added),
                },
            ),
            deferred: self.deferred,
        }
    }

    /// The document after the update `dot` has edited the record under
    /// `key`, before the removals of keys held back are applied again: the
    /// entry is made if it is absent, its clock and the aggregate clock
    /// record `dot`, and the record is `edited`.
    pub open spec fn updated(self, dot: Dot, key: u32, edit: RecordOpView) -> DocumentView {
        DocumentView {
            clock: advanced(self.clock, dot),
            entries: self.entries.insert(
                key,
                EntryView {
                    clock: advanced(self.entry_clock_at(key), dot),
                    record: self.record_at(key).edited(edit),
                },
            ),
            deferred: self.deferred,
        }
    }

    /// The document after every removal of keys held back is applied again:
    /// an entry that one of them targets loses the dots that the clocks of
    /// those have seen; it leaves the document if none is left, and else
    /// its record loses what those clocks have seen. Those removals stay
    /// held back whose clock the aggregate clock does not dominate.
    pub open spec fn replayed(self) -> DocumentView {
        DocumentView {
            clock: self.clock,
            entries: Map::new(
                |key: u32|
                    self.entries.contains_key(key) && (self.is_targeted(key) ==> !is_blank(
                        forgotten_all(self.entries[key].clock, self.held_against(key)),
                    )),
                |key: u32|
                    if self.is_targeted(key) {
                        EntryView {
                            clock: forgotten_all(self.entries[key].clock, self.held_against(key)),
                            record: self.entries[key].record.without_all(self.held_against(key)),
                        }
                    } else {
                        self.entries[key]
                    },
            ),
            deferred: self.deferred.restrict(
                Set::new(|clock: Map<u32, u64>| !dominates(self.clock, clock)),
            ),
        }
    }

    /// The document after the removal of the keys in `keyset` under `clock`:
    /// the entry of each of them loses the dots that `clock` has seen; it
    /// leaves the document if none is left, and else its record loses what
    /// `clock` has seen. The aggregate clock stays. Unless the aggregate
    /// clock dominates `clock`, the removal is held back: its targets join
    /// those held back under the same clock.
    pub open spec fn with_keys_removed(self, clock: Map<u32, u64>, keyset: Set<u32>)
        -> DocumentView {
        DocumentView {
            clock: self.clock,
            entries: Map::new(
                |key: u32|
                    self.entries.contains_key(key) && (keyset.contains(key) ==> !is_blank(
                        forgotten(self.entries[key].clock, clock),
                    )),
                |key: u32|
                    if keyset.contains(key) {
                        EntryView {
                            clock: forgotten(self.entries[key].clock, clock),
                            record: self.entries[key].record.without_seen(clock),
                        }
                    } else {
                        self.entries[key]
                    },
            ),
            deferred: if dominates(self.clock, clock) {
                self.deferred
            } else {
                self.deferred.insert(clock, self.targets_of(clock).union(keyset))
            },
        }
    }

    /// The document after `op`: a removal of keys is applied as
    /// `with_keys_removed` says; an update whose dot the document has seen
    /// changes nothing; any other update edits its record, and then every
    /// removal of keys held back is applied again.
    pub open spec fn applied(self, op: DocumentOpView) -> DocumentView {
        match op {
            DocumentOpView::Rm { clock, keyset } => self.with_keys_removed(clock, keyset),
            DocumentOpView::Up { dot, key, op: edit } => {
                if witnessed(self.clock, dot) {
                    self
                } else {
                    self.updated(dot, key, edit).replayed()
                }
            },
        }
    }

    /// `applied` says all that `op` leaves. It does so unless the operation
    /// makes a record forget and two removals that the record holds back
    /// come to stand under one clock: which of their targets stay is then
    /// left to the record's hash table.
    pub open spec fn foreseen(self, op: DocumentOpView) -> bool {
        match op {
            DocumentOpView::Rm { clock, keyset } => forall|key: u32|
                keyset.contains(key) && #[trigger] self.entries.contains_key(key)
                    ==> self.entries[key].record.keeps_apart(set![clock]),
            DocumentOpView::Up { dot, key, op: edit } => witnessed(self.clock, dot)
                || self.updated(dot, key, edit).replays_apart(),
        }
    }

    /// Applying the removals of keys held back again brings no two removals
    /// that a record holds back to stand under one clock.
    pub open spec fn replays_apart(self) -> bool {
        forall|key: u32| #[trigger]
            self.entries.contains_key(key) ==> self.entries[key].record.keeps_apart(
                self.held_against(key),
            )
    }

    /// The two documents hold the same but for the targets of the removals
    /// that their records hold back.
    pub open spec fn agrees_but_for_targets(self, other: DocumentView) -> bool {
        &&& self.clock == other.clock
        &&& self.deferred == other.deferred
        &&& self.entries.dom() == other.entries.dom()
        &&& forall|key: u32| #[trigger]
            self.entries.contains_key(key) ==> self.entries[key].clock == other.entries[key].clock
                && self.entries[key].record.agrees_but_for_targets(other.entries[key].record)
    }

    /// The document after `op`, written without the removals held back:
    /// this is `applied` for a settled document.
    pub open spec fn applied_unhindered(self, op: DocumentOpView) -> DocumentView {
        match op {
            DocumentOpView::Rm { clock, keyset } => self.with_keys_removed(clock, keyset),
            DocumentOpView::Up { dot, key, op: edit } => {
                if witnessed(self.clock, dot) {
                    self
                } else {
                    match edit {
                        RecordOpView::Add { dot: inner, members } => self.with_addition(
                            dot,
                            key,
                            inner,
                            members,
                        ),
                        RecordOpView::Rm { clock, members } => DocumentView {
                            clock: advanced(self.clock, dot),
                            entries: self.entries.insert(
                                key,
                                EntryView {
                                    clock: advanced(self.entry_clock_at(key), dot),
                                    record: self.record_at(key).with_removal(clock, members),
                                },
                            ),
                            deferred: self.deferred,
                        },
                    }
                }
            },
        }
    }
}

impl View for RecordMap {
    type V = DocumentView;

    open spec fn view(&self) -> DocumentView {
        DocumentView {
            clock: map_clock(*self),
            entries: Map::new(
                |key: u32| map_entries(*self).contains_key(key),
                |key: u32|
                    EntryView {
                        clock: map_entries(*self)[key].0,
                        record: RecordView {
                            clock: map_entries(*self)[key].1,
                            members: map_entries(*self)[key].2,
                            deferred: map_entries(*self)[key].3,
                        },
                    },
            ),
            deferred: map_deferred(*self),
        }
    }
}

/// What applying `op` to the map `pre` leaves in `post`.
///
/// An update whose dot the map has seen changes nothing. Any other update
/// records its dot in the aggregate clock, and a removal of keys leaves the
/// clock as it is. The map is `applied`: wholly where the operation is
/// foreseen, and else but for the targets of the removals that records hold
/// back.
pub open spec fn apply_outcome(pre: RecordMap, op: DocumentOpView, post: RecordMap) -> bool {
    &&& op is Up && witnessed(pre@.clock, op->dot) ==> post == pre
    &&& op is Up ==> post@.clock == advanced(pre@.clock, op->dot)
    &&& op is Rm ==> post@.clock == pre@.clock
    &&& post@.agrees_but_for_targets(pre@.applied(op))
    &&& pre@.foreseen(op) ==> post@ == pre@.applied(op)
}

/// Calls `crdts::Map::new`, which makes a map with an empty clock, no entry
/// and no deferred removal.
#[verifier::external_body]
pub(crate) fn fresh_map() -> (m: RecordMap)
    ensures
        map_clock(m) == DocumentView::empty().clock,
        map_entries(m).dom() == DocumentView::empty().entries.dom(),
        map_deferred(m) == DocumentView::empty().deferred,
{
    RecordMap { inner: crdts::Map::new() }
}

/// Calls `clone` on the `crdts::Map`, which copies clock, entries and
/// deferred removals as they are.
#[verifier::external_body]
pub(crate) fn copy_map(m: &RecordMap) -> (c: RecordMap)
    ensures
        c == *m,
{
    RecordMap { inner: m.inner.clone() }
}

/// Calls `crdts::Map::read_ctx`, which hands out the aggregate clock twice.
#[verifier::external_body]
pub(crate) fn read_ctx_of_map(m: &RecordMap) -> (ctx: ReadCtx<()>)
    ensures
        ctx.add_clock@ == map_clock(*m),
        ctx.rm_clock@ == map_clock(*m),
{
    let read = m.inner.read_ctx();
    ReadCtx {
        add_clock: VClock { dots: read.add_clock.dots },
        rm_clock: VClock { dots: read.rm_clock.dots },
        val: (),
    }
}

/// Calls `crdts::Map::get`. That function hands out the aggregate clock as
/// `add_clock`; for a key that the map holds, the entry's clock as `rm_clock`
/// and a copy of the record; for any other key an empty `rm_clock` and no
/// record.
#[verifier::external_body]
pub(crate) fn get_from_map(m: &RecordMap, key: u32) -> (ctx: ReadCtx<Option<OrswotRecord>>)
    ensures
        ctx.add_clock@ == m@.clock,
        ctx.rm_clock@ == m@.entry_clock_at(key),
        (ctx.val is Some) == m@.entries.contains_key(key),
        ctx.val is Some ==> ctx.val->0@ == m@.entries[key].record,
{
    let read = m.inner.get(&key);
    ReadCtx {
        add_clock: VClock { dots: read.add_clock.dots },
        rm_clock: VClock { dots: read.rm_clock.dots },
        val: read.val.map(|set| OrswotRecord { inner: set }),
    }
}

/// Calls `crdts::Map::keys`. That function walks the entries, which a
/// `BTreeMap` keeps: so each key that the map holds comes once, the keys
/// ascend, and each comes with the aggregate clock as `add_clock` and its
/// entry's clock as `rm_clock`.
#[verifier::external_body]
pub(crate) fn keys_of_map(m: &RecordMap) -> (keys: Vec<ReadCtx<u32>>)
    ensures
        keys@.len() == m@.entries.dom().len(),
        forall|i: int| 0 <= i < keys@.len() ==> m@.entries.contains_key(#[trigger] keys@[i].val),
        forall|key: u32|
            m@.entries.contains_key(key) ==> exists|i: int|
                0 <= i < keys@.len() && (#[trigger] keys@[i]).val == key,
        forall|i: int, j: int| 0 <= i < j < keys@.len() ==> keys@[i].val < keys@[j].val,
        forall|i: int|
            0 <= i < keys@.len() ==> (#[trigger] keys@[i]).add_clock@ == m@.clock
                && keys@[i].rm_clock@ == m@.entries[keys@[i].val].clock,
{
    m.inner.keys().map(
        |read|
            ReadCtx {
                add_clock: VClock { dots: read.add_clock.dots },
                rm_clock: VClock { dots: read.rm_clock.dots },
                val: *read.val,
            },
    ).collect()
}

/// Calls `apply` of `crdts::CmRDT` on the `crdts::Map`, with the operation
/// written in the crate's types. The contract is `apply_outcome`: it claims
/// what the bodies of that function, of `apply_keyset_rm` and
/// `apply_deferred`, and of `apply` and `forget` on `crdts::Orswot` and
/// `crdts::VClock` show. The removals held back are walked in the order of
/// their hash table; what they leave does not depend on that order, but for
/// the one case that `foreseen` leaves out.
#[verifier::external_body]
pub(crate) fn apply_to_map(m: &mut RecordMap, op: DocumentOp)
    ensures
        apply_outcome(*old(m), op@, *final(m)),
{
    let outside = match op {
        DocumentOp::Rm { clock, keyset } => OutsideOp::Rm { clock: OutsideClock { dots: clock.dots }, keyset },
        DocumentOp::Up { dot, key, op: RecordOp::Add { dot: inner, members } } => OutsideOp::Up {
            dot: OutsideDot::new(dot.actor, dot.counter),
            key,
            op: OutsideEdit::Add { dot: OutsideDot::new(inner.actor, inner.counter), members },
        },
        DocumentOp::Up { dot, key, op: RecordOp::Rm { clock, members } } => OutsideOp::Up {
            dot: OutsideDot::new(dot.actor, dot.counter),
            key,
            op: OutsideEdit::Rm { clock: OutsideClock { dots: clock.dots }, members },
        },
    };
    crdts::CmRDT::apply(&mut m.inner, outside)
}

impl Clone for RecordMap {
    fn clone(&self) -> (r: Self)
        ensures
            r == *self,
    {
        copy_map(self)
    }
}

} // verus!
