//! Operations: the causal events that replicas exchange.

use crate::clock::{Dot, VClock};
use std::collections::BTreeSet;
use vstd::prelude::*;

verus! {

/// An edit of one record.
#[derive(Debug, PartialEq, Eq)]
pub enum RecordOp {
    /// Add `members` under the event `dot`.
    Add { dot: Dot, members: Vec<Vec<u8>> },
    /// Remove from `members` what `clock` has seen.
    Rm { clock: VClock, members: Vec<Vec<u8>> },
}

/// An edit of the document.
#[derive(Debug, PartialEq, Eq)]
pub enum DocumentOp {
    /// Remove from the keys in `keyset` what `clock` has seen.
    Rm { clock: VClock, keyset: BTreeSet<u32> },
    /// Edit the record under `key`, as the event `dot`.
    Up { dot: Dot, key: u32, op: RecordOp },
}

/// What a `RecordOp` says.
pub enum RecordOpView {
    Add { dot: Dot, members: Seq<Seq<u8>> },
    Rm { clock: Map<u32, u64>, members: Seq<Seq<u8>> },
}

/// What a `DocumentOp` says.
pub enum DocumentOpView {
    Rm { clock: Map<u32, u64>, keyset: Set<u32> },
    Up { dot: Dot, key: u32, op: RecordOpView },
}

impl View for RecordOp {
    type V = RecordOpView;

    open spec fn view(&self) -> RecordOpView {
        match *self {
            RecordOp::Add { dot, members } => RecordOpView::Add {
                dot,
                members: members.deep_view(),
            },
            RecordOp::Rm { clock, members } => RecordOpView::Rm {
                clock: clock@,
                members: members.deep_view(),
            },
        }
    }
}

impl View for DocumentOp {
    type V = DocumentOpView;

    open spec fn view(&self) -> DocumentOpView {
        match *self {
            DocumentOp::Rm { clock, keyset } => DocumentOpView::Rm { clock: clock@, keyset: keyset@ },
            DocumentOp::Up { dot, key, op } => DocumentOpView::Up { dot, key, op: op@ },
        }
    }
}

impl DocumentOpView {
    /// The operation adds members to one record as a single event: the
    /// record's edit carries the same dot as the update around it.
    pub open spec fn is_addition(self) -> bool {
        match self {
            DocumentOpView::Up { dot, key, op: RecordOpView::Add { dot: inner, members } } => inner
                == dot,
            _ => false,
        }
    }

    /// The operation is one event: an update that adds members carries the
    /// same dot in the record's edit as around it. A removal is one event
    /// as it stands.
    pub open spec fn single_event(self) -> bool {
        match self {
            DocumentOpView::Up { dot, key, op: RecordOpView::Add { dot: inner, members } } => inner
                == dot,
            _ => true,
        }
    }

    /// The counter of an update's dot.
    pub open spec fn counter(self) -> u64
        recommends
            self is Up,
    {
        match self {
            DocumentOpView::Up { dot, .. } => dot.counter,
            _ => 0,
        }
    }

    /// The actor of an update.
    pub open spec fn actor(self) -> u32
        recommends
            self is Up,
    {
        match self {
            DocumentOpView::Up { dot, .. } => dot.actor,
            _ => 0,
        }
    }
}

/// An independent copy of a list of members.
pub fn clone_members(members: &Vec<Vec<u8>>) -> (r: Vec<Vec<u8>>)
    ensures
        r.deep_view() == members.deep_view(),
{
    let mut out: Vec<Vec<u8>> = Vec::new();
    let mut i: usize = 0;
    while i < members.len()
        invariant
            i <= members.len(),
            out.len() == i,
            forall|j: int| 0 <= j < i ==> out[j]@ == members[j]@,
        decreases members.len() - i,
    {
        let item = members[i].clone();
        out.push(item);
        i += 1;
    }
    assert(out.deep_view() =~= members.deep_view()) by {
        assert(out.deep_view().len() == members.deep_view().len());
        assert forall|j: int| 0 <= j < out.len() implies out.deep_view()[j]
            == members.deep_view()[j] by {
            assert(out.deep_view()[j] == out[j].deep_view());
            assert(members.deep_view()[j] == members[j].deep_view());
            assert(out[j].deep_view() =~= out[j]@);
            assert(members[j].deep_view() =~= members[j]@);
        }
    }
    out
}

impl Clone for RecordOp {
    fn clone(&self) -> (r: Self)
        ensures
            r@ == self@,
    {
        match self {
            RecordOp::Add { dot, members } => RecordOp::Add {
                dot: *dot,
                members: clone_members(members),
            },
            RecordOp::Rm { clock, members } => RecordOp::Rm {
                clock: clock.clone(),
                members: clone_members(members),
            },
        }
    }
}

impl Clone for DocumentOp {
    fn clone(&self) -> (r: Self)
        ensures
            r@ == self@,
    {
        match self {
            DocumentOp::Rm { clock, keyset } => DocumentOp::Rm {
                clock: clock.clone(),
                keyset: keyset.clone(),
            },
            DocumentOp::Up { dot, key, op } => DocumentOp::Up {
                dot: *dot,
                key: *key,
                op: op.clone(),
            },
        }
    }
}

} // verus!
