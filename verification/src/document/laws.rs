//! What holds of applying operations, whatever the order of delivery.

use crate::clock::{
    counter_at, dominates, forgotten, forgotten_all, is_blank, next_dot, witnessed, Dot,
};
use crate::document::op::{DocumentOpView, RecordOpView};
use crate::document::record::RecordView;
use crate::document::store::{apply_outcome, DocumentView, RecordMap};
use crate::document::unhindered::{
    all_additions, ascends, lemma_forgotten_twice, lemma_unhindered_covers_records,
    lemma_unhindered_delivery, lemma_unhindered_keeps_coherent, lemma_unhindered_neighbours,
    lemma_unhindered_survive, unhindered_all,
};
use vstd::prelude::*;

verus! {

/// The addition of `members` to the record under `key` as the event `dot`.
pub open spec fn addition(dot: Dot, key: u32, members: Seq<Seq<u8>>) -> DocumentOpView {
    DocumentOpView::Up { dot, key, op: RecordOpView::Add { dot, members } }
}

/// The document after the operations of `ops`, applied from the first on.
pub open spec fn applied_all(doc: DocumentView, ops: Seq<DocumentOpView>) -> DocumentView
    decreases ops.len(),
{
    if ops.len() == 0 {
        doc
    } else {
        applied_all(doc.applied(ops[0]), ops.drop_first())
    }
}

/// A clock forgets nothing where there is no clock to have seen anything.
pub proof fn lemma_forgotten_none(c: Map<u32, u64>, seen: Set<Map<u32, u64>>)
    requires
        forall|one: Map<u32, u64>| !seen.contains(one),
    ensures
        forgotten_all(c, seen) == c,
{
    assert(forgotten_all(c, seen) =~= c);
}

/// Applying the removals held back again changes nothing in a record that
/// holds none back.
pub proof fn lemma_record_replay_of_none(record: RecordView)
    requires
        record.holds_nothing_back(),
    ensures
        record.replayed() == record,
{
    let again = record.replayed();
    assert forall|m: Seq<u8>| record.members.contains_key(m) implies #[trigger] again.members.contains_key(m)
        && again.members[m] == record.members[m] by {
        lemma_forgotten_none(record.members[m], record.held_against(m));
    }
    assert(again.members =~= record.members);
    assert(again.deferred =~= record.deferred);
}

/// Applying the removals of keys held back again changes nothing in a
/// document that holds none back.
pub proof fn lemma_replay_of_none(doc: DocumentView)
    requires
        doc.holds_nothing_back(),
    ensures
        doc.replayed() == doc,
        doc.replays_apart(),
{
    let again = doc.replayed();
    assert(again.entries =~= doc.entries);
    assert(again.deferred =~= doc.deferred);
    assert forall|key: u32| #[trigger] doc.entries.contains_key(key) implies doc.entries[key].record.keeps_apart(
        doc.held_against(key),
    ) by {
        let record = doc.entries[key].record;
        let seen = doc.held_against(key);
        assert forall|one: Map<u32, u64>, other: Map<u32, u64>|
            record.deferred.contains_key(one) && record.deferred.contains_key(other)
                && #[trigger] forgotten_all(one, seen) == #[trigger] forgotten_all(other, seen)
                && !is_blank(forgotten_all(one, seen)) implies one == other by {
            lemma_forgotten_none(one, seen);
            lemma_forgotten_none(other, seen);
        }
    }
}

/// On a settled document every operation is foreseen, and what it leaves is
/// what `applied_unhindered` writes.
pub proof fn lemma_settled_applied(doc: DocumentView, op: DocumentOpView)
    requires
        doc.settled(),
    ensures
        doc.foreseen(op),
        doc.applied(op) == doc.applied_unhindered(op),
{
    match op {
        DocumentOpView::Rm { clock, keyset } => {},
        DocumentOpView::Up { dot, key, op: edit } => {
            if !witnessed(doc.clock, dot) {
                let record = doc.record_at(key);
                assert(record.holds_nothing_back());
                match edit {
                    RecordOpView::Add { dot: inner, members } => {
                        if !witnessed(record.clock, inner) {
                            lemma_record_replay_of_none(record.with_members_only(inner, members));
                        }
                    },
                    RecordOpView::Rm { clock, members } => {},
                }
                lemma_replay_of_none(doc.updated(dot, key, edit));
            }
        },
    }
}

/// A delivery of additions to a settled document leaves what
/// `unhindered_all` writes, and the document stays settled.
pub proof fn lemma_settled_all(doc: DocumentView, ops: Seq<DocumentOpView>)
    requires
        doc.settled(),
        all_additions(ops),
    ensures
        applied_all(doc, ops) == unhindered_all(doc, ops),
        applied_all(doc, ops).settled(),
    decreases ops.len(),
{
    if ops.len() > 0 {
        let rest = ops.drop_first();
        assert(ops[0].is_addition());
        assert(all_additions(rest)) by {
            assert forall|i: int| 0 <= i < rest.len() implies (#[trigger] rest[i]).is_addition() by {
                assert(rest[i] == ops[i + 1]);
            }
        }
        lemma_settled_applied(doc, ops[0]);
        lemma_unhindered_keeps_coherent(doc, ops[0]);
        lemma_settled_all(doc.applied(ops[0]), rest);
    }
}

/// An addition leaves a settled document settled and a coherent document
/// coherent.
pub proof fn lemma_applied_keeps_coherent(doc: DocumentView, op: DocumentOpView)
    ensures
        op.is_addition() && doc.coherent() ==> doc.applied(op).coherent(),
        op.is_addition() && doc.settled() ==> doc.applied(op).settled(),
{
    if doc.settled() {
        lemma_settled_applied(doc, op);
        lemma_unhindered_keeps_coherent(doc, op);
    }
}

/// The aggregate clock of a settled document keeps dominating the clock of
/// every record, whatever single event is applied.
pub proof fn law_clock_covers_records(doc: DocumentView, op: DocumentOpView)
    requires
        doc.settled(),
        doc.covers_records(),
        op.single_event(),
    ensures
        doc.applied(op).covers_records(),
{
    lemma_settled_applied(doc, op);
    lemma_unhindered_covers_records(doc, op);
}

/// Idempotence of an update: a second time changes nothing at all, whatever
/// the map held before the first time.
pub proof fn law_update_twice(before: RecordMap, op: DocumentOpView, once: RecordMap, twice: RecordMap)
    requires
        op is Up,
        apply_outcome(before, op, once),
        apply_outcome(once, op, twice),
    ensures
        twice == once,
{
}

/// Idempotence of an update, over what the document holds.
pub proof fn law_addition_twice(doc: DocumentView, op: DocumentOpView)
    requires
        op is Up,
    ensures
        doc.applied(op).applied(op) == doc.applied(op),
{
}

/// A clock that has forgotten what some clocks have seen forgets nothing
/// more to the same clocks.
pub proof fn lemma_forgotten_all_twice(c: Map<u32, u64>, seen: Set<Map<u32, u64>>)
    ensures
        forgotten_all(forgotten_all(c, seen), seen) == forgotten_all(c, seen),
{
    let once = forgotten_all(c, seen);
    assert forall|actor: u32| once.contains_key(actor) implies forgotten_all(
        once,
        seen,
    ).contains_key(actor) by {
        assert(counter_at(once, actor) == counter_at(c, actor));
    }
    assert(forgotten_all(once, seen) =~= once);
}

/// A record that has lost what some clocks have seen loses nothing more to
/// the same clocks, and its removals held back stay apart.
pub proof fn lemma_without_all_twice(record: RecordView, seen: Set<Map<u32, u64>>)
    ensures
        record.without_all(seen).keeps_apart(seen),
        record.without_all(seen).without_all(seen) == record.without_all(seen),
{
    let once = record.without_all(seen);
    let twice = once.without_all(seen);
    lemma_forgotten_all_twice(record.clock, seen);
    assert forall|m: Seq<u8>| once.members.contains_key(m) implies #[trigger] twice.members.contains_key(m)
        && twice.members[m] == once.members[m] by {
        lemma_forgotten_all_twice(record.members[m], seen);
    }
    assert(twice.members =~= once.members);
    // Every clock under which the record still holds a removal back has
    // forgotten already.
    assert forall|c: Map<u32, u64>| once.deferred.contains_key(c) implies #[trigger] forgotten_all(
        c,
        seen,
    ) == c by {
        let held = choose|held: Map<u32, u64>|
            record.deferred.contains_key(held) && c == #[trigger] forgotten_all(held, seen);
        lemma_forgotten_all_twice(held, seen);
    }
    assert forall|c: Map<u32, u64>| once.deferred.contains_key(c) implies #[trigger] twice.deferred.contains_key(c)
        && twice.deferred[c] == once.deferred[c] by {
        assert(forgotten_all(c, seen) == c);
        let again = choose|held: Map<u32, u64>|
            once.deferred.contains_key(held) && c == #[trigger] forgotten_all(held, seen);
        assert(forgotten_all(again, seen) == again);
    }
    assert forall|c: Map<u32, u64>| twice.deferred.contains_key(c) implies once.deferred.contains_key(
        c,
    ) by {
        let mid = choose|mid: Map<u32, u64>|
            once.deferred.contains_key(mid) && c == #[trigger] forgotten_all(mid, seen);
        assert(forgotten_all(mid, seen) == mid);
    }
    assert(twice.deferred =~= once.deferred);
    assert forall|one: Map<u32, u64>, other: Map<u32, u64>|
        once.deferred.contains_key(one) && once.deferred.contains_key(other)
            && #[trigger] forgotten_all(one, seen) == #[trigger] forgotten_all(other, seen)
            && !is_blank(forgotten_all(one, seen)) implies one == other by {
        assert(forgotten_all(one, seen) == one);
        assert(forgotten_all(other, seen) == other);
    }
}

/// Idempotence of a removal of keys: removing the same keys under the same
/// clock a second time changes nothing, and is foreseen.
pub proof fn law_removal_twice(doc: DocumentView, clock: Map<u32, u64>, keyset: Set<u32>)
    ensures
        doc.with_keys_removed(clock, keyset).foreseen(DocumentOpView::Rm { clock, keyset }),
        doc.with_keys_removed(clock, keyset).with_keys_removed(clock, keyset)
            == doc.with_keys_removed(clock, keyset),
{
    let once = doc.with_keys_removed(clock, keyset);
    let twice = once.with_keys_removed(clock, keyset);
    assert forall|key: u32| once.entries.contains_key(key) implies #[trigger] twice.entries.contains_key(key)
        && twice.entries[key] == once.entries[key] by {
        if keyset.contains(key) {
            let entry = doc.entries[key];
            lemma_forgotten_twice(entry.clock, clock);
            lemma_without_all_twice(entry.record, set![clock]);
        }
    }
    assert(twice.entries =~= once.entries);
    if !dominates(doc.clock, clock) {
        assert(once.targets_of(clock).union(keyset) =~= once.targets_of(clock));
    }
    assert(twice.deferred =~= once.deferred);
    assert forall|key: u32|
        keyset.contains(key) && #[trigger] once.entries.contains_key(key) implies once.entries[key].record.keeps_apart(
        set![clock],
    ) by {
        lemma_without_all_twice(doc.entries[key].record, set![clock]);
    }
}

/// A document that agrees, but for targets, with one from which keys were
/// removed is left as it is by the same removal, and the removal is
/// foreseen.
pub proof fn lemma_removal_on_removed(
    doc: DocumentView,
    clock: Map<u32, u64>,
    keyset: Set<u32>,
    once: DocumentView,
)
    requires
        once.agrees_but_for_targets(doc.with_keys_removed(clock, keyset)),
    ensures
        once.foreseen(DocumentOpView::Rm { clock, keyset }),
        once.with_keys_removed(clock, keyset) == once,
{
    let model = doc.with_keys_removed(clock, keyset);
    let twice = once.with_keys_removed(clock, keyset);
    let seen = set![clock];
    assert forall|key: u32|
        keyset.contains(key) && #[trigger] once.entries.contains_key(key) implies {
        let record = once.entries[key].record;
        &&& forgotten(once.entries[key].clock, clock) == once.entries[key].clock
        &&& record.keeps_apart(seen)
        &&& record.without_all(seen) == record
    } by {
        assert(model.entries.dom().contains(key));
        assert(model.entries.contains_key(key));
        let source = doc.entries[key];
        let record = once.entries[key].record;
        let pattern = model.entries[key].record;
        lemma_forgotten_twice(source.clock, clock);
        lemma_forgotten_all_twice(source.record.clock, seen);
        assert forall|m: Seq<u8>| record.members.contains_key(m) implies #[trigger] forgotten_all(
            record.members[m],
            seen,
        ) == record.members[m] by {
            lemma_forgotten_all_twice(source.record.members[m], seen);
        }
        assert forall|c: Map<u32, u64>| record.deferred.contains_key(c) implies #[trigger] forgotten_all(
            c,
            seen,
        ) == c && !is_blank(c) by {
            assert(pattern.deferred.dom().contains(c));
            assert(pattern.deferred.contains_key(c));
            let held = choose|held: Map<u32, u64>|
                source.record.deferred.contains_key(held) && c == #[trigger] forgotten_all(
                    held,
                    seen,
                );
            lemma_forgotten_all_twice(held, seen);
        }
        let again = record.without_all(seen);
        assert(again.members =~= record.members);
        assert forall|c: Map<u32, u64>| record.deferred.contains_key(c) implies #[trigger] again.deferred.contains_key(c)
            && again.deferred[c] == record.deferred[c] by {
            assert(forgotten_all(c, seen) == c);
            let picked = choose|held: Map<u32, u64>|
                record.deferred.contains_key(held) && c == #[trigger] forgotten_all(held, seen);
            assert(forgotten_all(picked, seen) == picked);
        }
        assert forall|c: Map<u32, u64>| again.deferred.contains_key(c) implies record.deferred.contains_key(
            c,
        ) by {
            let mid = choose|mid: Map<u32, u64>|
                record.deferred.contains_key(mid) && c == #[trigger] forgotten_all(mid, seen);
            assert(forgotten_all(mid, seen) == mid);
        }
        assert(again.deferred =~= record.deferred);
        assert forall|one: Map<u32, u64>, other: Map<u32, u64>|
            record.deferred.contains_key(one) && record.deferred.contains_key(other)
                && #[trigger] forgotten_all(one, seen) == #[trigger] forgotten_all(other, seen)
                && !is_blank(forgotten_all(one, seen)) implies one == other by {
            assert(forgotten_all(one, seen) == one);
            assert(forgotten_all(other, seen) == other);
        }
    }
    assert forall|key: u32| once.entries.contains_key(key) implies #[trigger] twice.entries.contains_key(key)
        && twice.entries[key] == once.entries[key] by {
        if keyset.contains(key) {
            assert(model.entries.dom().contains(key));
            assert(!is_blank(model.entries[key].clock));
        }
    }
    assert(twice.entries =~= once.entries);
    if !dominates(doc.clock, clock) {
        assert(once.targets_of(clock).union(keyset) =~= once.targets_of(clock));
    }
    assert(twice.deferred =~= once.deferred);
}

/// Idempotence: applying any operation a second time leaves what the map
/// holds as it was after the first time, whatever it held before.
pub proof fn law_apply_twice(before: RecordMap, op: DocumentOpView, once: RecordMap, twice: RecordMap)
    requires
        apply_outcome(before, op, once),
        apply_outcome(once, op, twice),
    ensures
        twice@ == once@,
{
    match op {
        DocumentOpView::Rm { clock, keyset } => {
            lemma_removal_on_removed(before@, clock, keyset, once@);
        },
        DocumentOpView::Up { dot, key, op: edit } => {},
    }
}

/// Monotonicity: the aggregate clock after any operation dominates the clock
/// before it, and after an update it has seen the update's dot.
pub proof fn law_clock_grows(before: RecordMap, op: DocumentOpView, after: RecordMap)
    requires
        apply_outcome(before, op, after),
    ensures
        dominates(after@.clock, before@.clock),
        op is Up ==> witnessed(after@.clock, op->dot),
{
}

/// Two additions of different actors that follow one another in a delivery
/// to a settled document may change places: the document after the delivery
/// is the same.
pub proof fn law_neighbours_change_places(
    doc: DocumentView,
    before: Seq<DocumentOpView>,
    first: DocumentOpView,
    second: DocumentOpView,
    after: Seq<DocumentOpView>,
)
    requires
        doc.settled(),
        all_additions(before),
        all_additions(after),
        first.is_addition(),
        second.is_addition(),
        first.actor() != second.actor(),
    ensures
        applied_all(doc, before + seq![first, second] + after) == applied_all(
            doc,
            before + seq![second, first] + after,
        ),
{
    let left = before + seq![first, second] + after;
    let right = before + seq![second, first] + after;
    assert(all_additions(left)) by {
        assert forall|i: int| 0 <= i < left.len() implies (#[trigger] left[i]).is_addition() by {
            if i < before.len() {
                assert(left[i] == before[i]);
            } else if i >= before.len() + 2 {
                assert(left[i] == after[i - before.len() - 2]);
            }
        }
    }
    assert(all_additions(right)) by {
        assert forall|i: int| 0 <= i < right.len() implies (#[trigger] right[i]).is_addition() by {
            if i < before.len() {
                assert(right[i] == before[i]);
            } else if i >= before.len() + 2 {
                assert(right[i] == after[i - before.len() - 2]);
            }
        }
    }
    lemma_settled_all(doc, left);
    lemma_settled_all(doc, right);
    lemma_unhindered_neighbours(doc, before, first, second, after);
}

/// Convergence: two deliveries of the same additions to a settled document
/// give the same document, in whatever way the actors' operations are mixed
/// and however often they are repeated, provided that in each delivery the
/// first occurrences of each actor's operations ascend by counter.
pub proof fn law_causal_delivery(
    doc: DocumentView,
    first: Seq<DocumentOpView>,
    second: Seq<DocumentOpView>,
)
    requires
        doc.settled(),
        all_additions(first + second),
        ascends(first),
        ascends(second),
        forall|op: DocumentOpView| first.contains(op) <==> second.contains(op),
    ensures
        applied_all(doc, first) == applied_all(doc, second),
{
    let both = first + second;
    assert(all_additions(first)) by {
        assert forall|i: int| 0 <= i < first.len() implies (#[trigger] first[i]).is_addition() by {
            assert(first[i] == both[i]);
        }
    }
    assert(all_additions(second)) by {
        assert forall|i: int| 0 <= i < second.len() implies (#[trigger] second[i]).is_addition() by {
            assert(second[i] == both[first.len() + i]);
        }
    }
    lemma_settled_all(doc, first);
    lemma_settled_all(doc, second);
    lemma_unhindered_delivery(doc, first, second);
}

/// A dot that a clock holds stays in it when the clock forgets what clocks
/// have seen that have not seen the dot.
pub proof fn lemma_dot_survives(c: Map<u32, u64>, dot: Dot, seen: Set<Map<u32, u64>>)
    requires
        c.contains_key(dot.actor),
        c[dot.actor] >= dot.counter,
        forall|one: Map<u32, u64>| #[trigger] seen.contains(one) ==> !witnessed(one, dot),
    ensures
        forgotten_all(c, seen).contains_key(dot.actor),
        forgotten_all(c, seen)[dot.actor] == c[dot.actor],
        !is_blank(forgotten_all(c, seen)),
{
    assert forall|one: Map<u32, u64>|
        #[trigger] seen.contains(one) && one.contains_key(dot.actor) implies one[dot.actor]
        < counter_at(c, dot.actor) by {
        assert(!witnessed(one, dot));
    }
}

/// Clock `c` holds `dot`: it counts the dot's actor at least as high as the
/// dot.
pub open spec fn holds(c: Map<u32, u64>, dot: Dot) -> bool {
    c.contains_key(dot.actor) && c[dot.actor] >= dot.counter
}

/// `member` is in the record under `key`, and both the member and the entry
/// hold `dot`.
pub open spec fn lives_by(doc: DocumentView, key: u32, member: Seq<u8>, dot: Dot) -> bool {
    &&& doc.entries.contains_key(key)
    &&& holds(doc.entries[key].clock, dot)
    &&& doc.entries[key].record.members.contains_key(member)
    &&& holds(doc.entries[key].record.members[member], dot)
}

/// No removal that the document holds back and that targets `key`, and none
/// that the record under `key` holds back and that targets `member`, has
/// seen `dot`.
pub open spec fn unseen_by_removals(doc: DocumentView, dot: Dot, key: u32, member: Seq<u8>) -> bool {
    &&& forall|clock: Map<u32, u64>|
        #[trigger] doc.held_against(key).contains(clock) ==> !witnessed(clock, dot)
    &&& forall|clock: Map<u32, u64>|
        #[trigger] doc.record_at(key).held_against(member).contains(clock) ==> !witnessed(
            clock,
            dot,
        )
}

/// An added element is live: after an addition whose dot neither the
/// document nor the record under its key has seen, each added member is in
/// the record and holds the dot, unless a removal held back that targets
/// the key or the member has seen the dot. This holds of every document,
/// whatever it holds back.
pub proof fn law_added_member_is_live(
    doc: DocumentView,
    dot: Dot,
    key: u32,
    added: Seq<Seq<u8>>,
    member: Seq<u8>,
)
    requires
        !witnessed(doc.clock, dot),
        !witnessed(doc.record_at(key).clock, dot),
        added.contains(member),
        unseen_by_removals(doc, dot, key, member),
    ensures
        lives_by(doc.applied(addition(dot, key, added)), key, member, dot),
        doc.applied(addition(dot, key, added)).record_at(key).members.contains_key(member),
        witnessed(doc.applied(addition(dot, key, added)).record_at(key).members[member], dot),
{
    let edit = RecordOpView::Add { dot, members: added };
    let before = doc.record_at(key);
    let joined = before.with_members_only(dot, added);
    let replayed = joined.replayed();
    let own = joined.members[member];
    assert(own == crate::clock::advanced(before.dots_of(member), dot));
    assert(own.contains_key(dot.actor) && own[dot.actor] >= dot.counter);
    assert(joined.held_against(member) =~= before.held_against(member));
    lemma_dot_survives(own, dot, joined.held_against(member));
    let kept = replayed.members[member];
    assert(replayed.members.contains_key(member));
    assert(kept.contains_key(dot.actor) && kept[dot.actor] >= dot.counter);

    let mid = doc.updated(dot, key, edit);
    assert(mid.entries[key].record == replayed);
    assert(mid.held_against(key) =~= doc.held_against(key));
    let entry_clock = mid.entries[key].clock;
    assert(entry_clock.contains_key(dot.actor) && entry_clock[dot.actor] >= dot.counter);
    lemma_dot_survives(entry_clock, dot, mid.held_against(key));
    lemma_dot_survives(kept, dot, mid.held_against(key));
    let after = mid.replayed();
    assert(after == doc.applied(addition(dot, key, added)));
    assert(after.entries.contains_key(key));
}

/// Forgetting never raises a counter.
pub proof fn lemma_forgotten_all_lower(c: Map<u32, u64>, seen: Set<Map<u32, u64>>, actor: u32)
    ensures
        counter_at(forgotten_all(c, seen), actor) <= counter_at(c, actor),
{
}

/// An update that adds members brings no removal to have seen a dot: what
/// the removals held back had not seen before, they have not seen after.
pub proof fn lemma_unseen_stays(
    doc: DocumentView,
    op: DocumentOpView,
    dot: Dot,
    key: u32,
    member: Seq<u8>,
)
    requires
        op is Up,
        op->op is Add,
        unseen_by_removals(doc, dot, key, member),
    ensures
        unseen_by_removals(doc.applied(op), dot, key, member),
{
    if !witnessed(doc.clock, op->dot) {
        let mid = doc.updated(op->dot, op->key, op->op);
        let after = mid.replayed();
        assert forall|clock: Map<u32, u64>|
            #[trigger] after.held_against(key).contains(clock) implies !witnessed(clock, dot) by {
            assert(doc.held_against(key).contains(clock));
        }
        let before = doc.record_at(key);
        let edited = mid.record_at(key);
        // The record's own edit holds back nothing new.
        assert forall|clock: Map<u32, u64>|
            #[trigger] edited.held_against(member).contains(clock) implies before.held_against(
            member,
        ).contains(clock) by {}
        assert forall|clock: Map<u32, u64>|
            #[trigger] after.record_at(key).held_against(member).contains(
                clock,
            ) implies !witnessed(clock, dot) by {
            if mid.entries.contains_key(key) && mid.is_targeted(key) {
                let seen = mid.held_against(key);
                let held = choose|held: Map<u32, u64>|
                    edited.deferred.contains_key(held) && clock == #[trigger] forgotten_all(
                        held,
                        seen,
                    );
                assert(edited.held_against(member).contains(held));
                assert(before.held_against(member).contains(held));
                lemma_forgotten_all_lower(held, seen, dot.actor);
            } else {
                assert(edited.held_against(member).contains(clock));
                assert(before.held_against(member).contains(clock));
            }
        }
    }
}

/// Nothing is lost: a member that lives by a dot which no removal held back
/// has seen lives on by that dot through any update that adds members,
/// whatever the document holds back.
pub proof fn law_member_stays(
    doc: DocumentView,
    op: DocumentOpView,
    dot: Dot,
    key: u32,
    member: Seq<u8>,
)
    requires
        op is Up,
        op->op is Add,
        lives_by(doc, key, member, dot),
        unseen_by_removals(doc, dot, key, member),
    ensures
        lives_by(doc.applied(op), key, member, dot),
{
    if !witnessed(doc.clock, op->dot) {
        let mid = doc.updated(op->dot, op->key, op->op);
        let after = mid.replayed();
        let before = doc.entries[key].record;
        let edited = mid.entries[key].record;
        assert(holds(mid.entries[key].clock, dot));
        assert(edited.members.contains_key(member) && holds(edited.members[member], dot)) by {
            if op->key == key && !witnessed(before.clock, op->op->dot) {
                let joined = before.with_members_only(op->op->dot, op->op->Add_members);
                assert(joined.members.contains_key(member));
                assert(holds(joined.members[member], dot));
                assert(joined.held_against(member) =~= before.held_against(member));
                lemma_dot_survives(joined.members[member], dot, joined.held_against(member));
            }
        }
        assert(mid.held_against(key) =~= doc.held_against(key));
        lemma_dot_survives(mid.entries[key].clock, dot, mid.held_against(key));
        lemma_dot_survives(edited.members[member], dot, mid.held_against(key));
    }
}

/// No lost updates, in every document: two actors read the same document,
/// each derives its next dot from that read and adds one element under the
/// same key. Once both additions are applied, the record holds both
/// elements, each kept alive by its own dot, unless a removal held back has
/// seen one of the two dots or the record under the key is ahead of the
/// aggregate clock.
pub proof fn law_concurrent_additions_live(
    doc: DocumentView,
    key: u32,
    one: u32,
    other: u32,
    x: Seq<u8>,
    y: Seq<u8>,
)
    requires
        one != other,
        counter_at(doc.clock, one) < u64::MAX,
        counter_at(doc.clock, other) < u64::MAX,
        dominates(doc.clock, doc.record_at(key).clock),
        unseen_by_removals(doc, next_dot(doc.clock, one), key, x),
        unseen_by_removals(doc, next_dot(doc.clock, other), key, y),
    ensures
        ({
            let first = addition(next_dot(doc.clock, one), key, seq![x]);
            let second = addition(next_dot(doc.clock, other), key, seq![y]);
            let both = doc.applied(first).applied(second);
            &&& lives_by(both, key, x, next_dot(doc.clock, one))
            &&& lives_by(both, key, y, next_dot(doc.clock, other))
        }),
{
    let d1 = next_dot(doc.clock, one);
    let d2 = next_dot(doc.clock, other);
    let first = addition(d1, key, seq![x]);
    let second = addition(d2, key, seq![y]);
    assert(seq![x].contains(x)) by {
        assert(seq![x][0] == x);
    }
    assert(seq![y].contains(y)) by {
        assert(seq![y][0] == y);
    }
    assert(counter_at(doc.clock, one) >= counter_at(doc.record_at(key).clock, one));
    assert(counter_at(doc.clock, other) >= counter_at(doc.record_at(key).clock, other));
    law_added_member_is_live(doc, d1, key, seq![x], x);
    lemma_unseen_stays(doc, first, d1, key, x);
    lemma_unseen_stays(doc, first, d2, key, y);
    let mid = doc.applied(first);
    assert(!witnessed(mid.clock, d2));
    assert(!witnessed(mid.record_at(key).clock, d2)) by {
        let updated = doc.updated(d1, key, first->op);
        lemma_forgotten_all_lower(
            updated.entries[key].record.clock,
            updated.held_against(key),
            other,
        );
    }
    law_added_member_is_live(mid, d2, key, seq![y], y);
    law_member_stays(mid, second, d1, key, x);
}

/// What the aggregate clock counts after a delivery, whatever the document
/// held and whatever the operations are: for each actor the highest of what
/// it counted before and the counters of the actor's updates in the
/// delivery.
pub proof fn law_clock_of_delivery(doc: DocumentView, ops: Seq<DocumentOpView>, actor: u32, n: u64)
    ensures
        counter_at(applied_all(doc, ops).clock, actor) >= n <==> counter_at(doc.clock, actor) >= n
            || exists|i: int|
            0 <= i < ops.len() && (#[trigger] ops[i]) is Up && ops[i].actor() == actor
                && ops[i].counter() >= n,
    decreases ops.len(),
{
    if ops.len() > 0 {
        let head = ops[0];
        let rest = ops.drop_first();
        let next = doc.applied(head);
        law_clock_of_delivery(next, rest, actor, n);
        if counter_at(applied_all(doc, ops).clock, actor) >= n {
            if counter_at(next.clock, actor) >= n {
                if counter_at(doc.clock, actor) < n {
                    assert(ops[0] is Up && ops[0].actor() == actor && ops[0].counter() >= n);
                }
            } else {
                let i = choose|i: int|
                    0 <= i < rest.len() && (#[trigger] rest[i]) is Up && rest[i].actor() == actor
                        && rest[i].counter() >= n;
                assert(ops[i + 1] == rest[i]);
            }
        }
        if exists|i: int|
            0 <= i < ops.len() && (#[trigger] ops[i]) is Up && ops[i].actor() == actor
                && ops[i].counter() >= n {
            let i = choose|i: int|
                0 <= i < ops.len() && (#[trigger] ops[i]) is Up && ops[i].actor() == actor
                    && ops[i].counter() >= n;
            if i > 0 {
                assert(rest[i - 1] == ops[i]);
            }
        }
    }
}

/// Convergence of the clock: two deliveries that hold the same operations,
/// in any order and with any repeats, leave aggregate clocks that count the
/// same for every actor.
pub proof fn law_clock_converges(
    doc: DocumentView,
    first: Seq<DocumentOpView>,
    second: Seq<DocumentOpView>,
)
    requires
        forall|op: DocumentOpView| first.contains(op) <==> second.contains(op),
    ensures
        forall|actor: u32| #[trigger]
            counter_at(applied_all(doc, first).clock, actor) == counter_at(
                applied_all(doc, second).clock,
                actor,
            ),
{
    assert forall|actor: u32| #[trigger]
        counter_at(applied_all(doc, first).clock, actor) == counter_at(
            applied_all(doc, second).clock,
            actor,
        ) by {
        let left = counter_at(applied_all(doc, first).clock, actor);
        let right = counter_at(applied_all(doc, second).clock, actor);
        law_clock_of_delivery(doc, first, actor, left);
        law_clock_of_delivery(doc, second, actor, left);
        law_clock_of_delivery(doc, first, actor, right);
        law_clock_of_delivery(doc, second, actor, right);
        if counter_at(doc.clock, actor) < left {
            let i = choose|i: int|
                0 <= i < first.len() && (#[trigger] first[i]) is Up && first[i].actor() == actor
                    && first[i].counter() >= left;
            assert(first.contains(first[i]));
            let j = choose|j: int| 0 <= j < second.len() && second[j] == first[i];
            assert(second[j] is Up && second[j].actor() == actor && second[j].counter() >= left);
        }
        if counter_at(doc.clock, actor) < right {
            let i = choose|i: int|
                0 <= i < second.len() && (#[trigger] second[i]) is Up && second[i].actor() == actor
                    && second[i].counter() >= right;
            assert(second.contains(second[i]));
            let j = choose|j: int| 0 <= j < first.len() && first[j] == second[i];
            assert(first[j] is Up && first[j].actor() == actor && first[j].counter() >= right);
        }
    }
}

/// No lost updates: two actors read the same coherent document, each derives
/// its next dot from that read and adds one element under the same key. Once
/// both additions are applied, in either order, the record holds both
/// elements, each kept alive by its own dot.
pub proof fn law_concurrent_additions_survive(
    doc: DocumentView,
    key: u32,
    one: u32,
    other: u32,
    x: Seq<u8>,
    y: Seq<u8>,
)
    requires
        doc.coherent(),
        one != other,
        counter_at(doc.clock, one) < u64::MAX,
        counter_at(doc.clock, other) < u64::MAX,
    ensures
        ({
            let first = addition(next_dot(doc.clock, one), key, seq![x]);
            let second = addition(next_dot(doc.clock, other), key, seq![y]);
            let both = doc.applied(first).applied(second);
            &&& both == doc.applied(second).applied(first)
            &&& both.record_at(key).members.contains_key(x)
            &&& both.record_at(key).members.contains_key(y)
            &&& witnessed(both.record_at(key).members[x], next_dot(doc.clock, one))
            &&& witnessed(both.record_at(key).members[y], next_dot(doc.clock, other))
        }),
{
    let first = addition(next_dot(doc.clock, one), key, seq![x]);
    let second = addition(next_dot(doc.clock, other), key, seq![y]);
    lemma_settled_applied(doc, first);
    lemma_settled_applied(doc, second);
    lemma_unhindered_keeps_coherent(doc, first);
    lemma_unhindered_keeps_coherent(doc, second);
    lemma_settled_applied(doc.applied(first), second);
    lemma_settled_applied(doc.applied(second), first);
    lemma_unhindered_survive(doc, key, one, other, x, y);
}

} // verus!
