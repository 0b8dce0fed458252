//! Additions to a document that holds no removal back: what they leave,
//! and in which orders they may arrive. The laws of the module `laws` rest
//! on these lemmas.

use crate::clock::{
    counter_at, dominates, forgotten, lemma_advanced_commutes, next_dot, witnessed, Dot,
};
use crate::document::op::{DocumentOpView, RecordOpView};
use crate::document::record::RecordView;
use crate::document::laws::addition;
use crate::document::store::DocumentView;
use vstd::prelude::*;

verus! {

/// The document after the operations of `ops`, applied from the first on as
/// `applied_unhindered` says.
pub open spec fn unhindered_all(doc: DocumentView, ops: Seq<DocumentOpView>) -> DocumentView
    decreases ops.len(),
{
    if ops.len() == 0 {
        doc
    } else {
        unhindered_all(doc.applied_unhindered(ops[0]), ops.drop_first())
    }
}

/// `ops` without every occurrence of `op`.
pub open spec fn without(ops: Seq<DocumentOpView>, op: DocumentOpView) -> Seq<DocumentOpView>
    decreases ops.len(),
{
    if ops.len() == 0 {
        ops
    } else if ops[0] == op {
        without(ops.drop_first(), op)
    } else {
        seq![ops[0]] + without(ops.drop_first(), op)
    }
}

/// An addition leaves a settled document settled and a coherent document
/// coherent.
pub proof fn lemma_unhindered_keeps_coherent(doc: DocumentView, op: DocumentOpView)
    ensures
        op.is_addition() && doc.coherent() ==> doc.applied_unhindered(op).coherent(),
        op.is_addition() && doc.settled() ==> doc.applied_unhindered(op).settled(),
{
    if op.is_addition() && doc.settled() {
        let dot = op->dot;
        let key = op->key;
        let post = doc.applied_unhindered(op);
        if !witnessed(doc.clock, dot) {
            assert forall|k: u32| #[trigger]
                post.entries.contains_key(k) implies post.entries[k].record.holds_nothing_back() by {
                if k != key {
                    assert(doc.entries.contains_key(k));
                } else {
                    assert(doc.record_at(key).holds_nothing_back());
                }
            }
            if doc.coherent() {
                assert forall|k: u32| #[trigger] post.entries.contains_key(k) implies dominates(
                    post.clock,
                    post.entries[k].record.clock,
                ) by {
                    if k != key {
                        assert(doc.entries.contains_key(k));
                        assert(dominates(doc.clock, doc.entries[k].record.clock));
                    }
                    assert forall|actor: u32|
                        counter_at(post.clock, actor) >= #[trigger] counter_at(
                            post.entries[k].record.clock,
                            actor,
                        ) by {
                        if k != key {
                            assert(counter_at(doc.clock, actor) >= counter_at(
                                doc.entries[k].record.clock,
                                actor,
                            ));
                        } else {
                            assert(counter_at(doc.clock, actor) >= counter_at(
                                doc.record_at(key).clock,
                                actor,
                            ));
                        }
                    }
                }
            }
        }
    }
}

/// Forgetting never raises a counter.
pub proof fn lemma_forgotten_lower(c: Map<u32, u64>, seen: Map<u32, u64>)
    ensures
        dominates(c, forgotten(c, seen)),
{
}

/// The aggregate clock of a settled document keeps dominating the clock of
/// every record, whatever single event is applied.
pub proof fn lemma_unhindered_covers_records(doc: DocumentView, op: DocumentOpView)
    requires
        doc.settled(),
        doc.covers_records(),
        op.single_event(),
    ensures
        doc.applied_unhindered(op).covers_records(),
{
    let post = doc.applied_unhindered(op);
    assert forall|k: u32| #[trigger] post.entries.contains_key(k) implies dominates(
        post.clock,
        post.entries[k].record.clock,
    ) by {
        assert forall|actor: u32|
            counter_at(post.clock, actor) >= #[trigger] counter_at(
                post.entries[k].record.clock,
                actor,
            ) by {
            match op {
                DocumentOpView::Rm { clock, keyset } => {
                    assert(doc.entries.contains_key(k));
                    assert(counter_at(doc.clock, actor) >= counter_at(
                        doc.entries[k].record.clock,
                        actor,
                    ));
                    lemma_forgotten_lower(doc.entries[k].record.clock, clock);
                },
                DocumentOpView::Up { dot, key, op: edit } => {
                    if witnessed(doc.clock, dot) || k != key {
                        assert(doc.entries.contains_key(k));
                        assert(counter_at(doc.clock, actor) >= counter_at(
                            doc.entries[k].record.clock,
                            actor,
                        ));
                    } else {
                        if doc.entries.contains_key(key) {
                            assert(dominates(doc.clock, doc.entries[key].record.clock));
                        }
                        assert(counter_at(doc.clock, actor) >= counter_at(
                            doc.record_at(key).clock,
                            actor,
                        ));
                    }
                },
            }
        }
    }
}

/// Idempotence of an addition, over what the document holds.
pub proof fn lemma_unhindered_addition_twice(doc: DocumentView, op: DocumentOpView)
    requires
        op.is_addition(),
    ensures
        doc.applied_unhindered(op).applied_unhindered(op) == doc.applied_unhindered(op),
{
}

/// Forgetting what a clock has seen a second time forgets nothing more.
pub proof fn lemma_forgotten_twice(c: Map<u32, u64>, seen: Map<u32, u64>)
    ensures
        forgotten(forgotten(c, seen), seen) == forgotten(c, seen),
{
    assert(forgotten(forgotten(c, seen), seen) =~= forgotten(c, seen));
}

/// Two members added to one record by events of different actors: the
/// record takes them in either order.
pub proof fn lemma_members_commute(
    record: RecordView,
    first: Dot,
    first_added: Seq<Seq<u8>>,
    second: Dot,
    second_added: Seq<Seq<u8>>,
)
    requires
        first.actor != second.actor,
    ensures
        record.with_members_only(first, first_added).with_members_only(second, second_added)
            == record.with_members_only(second, second_added).with_members_only(first, first_added),
{
    let left = record.with_members_only(first, first_added).with_members_only(second, second_added);
    let right = record.with_members_only(second, second_added).with_members_only(first, first_added);
    lemma_advanced_commutes(record.clock, first, second);
    lemma_advanced_commutes(record.clock, second, first);
    assert(left.clock == right.clock);
    assert forall|m: Seq<u8>| left.members.contains_key(m) == right.members.contains_key(m) by {}
    assert forall|m: Seq<u8>| #[trigger] left.members.contains_key(m) implies left.members[m]
        == right.members[m] by {
        lemma_advanced_commutes(record.dots_of(m), first, second);
        lemma_advanced_commutes(record.dots_of(m), second, first);
    }
    assert(left.members =~= right.members);
}

/// Additions by different actors commute.
pub proof fn lemma_additions_commute(doc: DocumentView, first: DocumentOpView, second: DocumentOpView)
    requires
        first.is_addition(),
        second.is_addition(),
        first.actor() != second.actor(),
    ensures
        doc.applied_unhindered(first).applied_unhindered(second) == doc.applied_unhindered(second).applied_unhindered(first),
{
    let left = doc.applied_unhindered(first).applied_unhindered(second);
    let right = doc.applied_unhindered(second).applied_unhindered(first);
    let d1 = first->dot;
    let d2 = second->dot;
    let k1 = first->key;
    let k2 = second->key;
    lemma_advanced_commutes(doc.clock, d1, d2);
    lemma_advanced_commutes(doc.clock, d2, d1);
    if !witnessed(doc.clock, d1) && !witnessed(doc.clock, d2) {
        let m1 = first->op->Add_members;
        let m2 = second->op->Add_members;
        lemma_advanced_commutes(doc.entry_clock_at(k1), d1, d2);
        lemma_advanced_commutes(doc.entry_clock_at(k1), d2, d1);
        lemma_members_commute(doc.record_at(k1), d1, m1, d2, m2);
        assert(left.entries =~= right.entries);
    }
}

/// Applying one delivery after another is applying the two as one.
pub proof fn lemma_unhindered_joined(
    doc: DocumentView,
    first: Seq<DocumentOpView>,
    second: Seq<DocumentOpView>,
)
    ensures
        unhindered_all(doc, first + second) == unhindered_all(unhindered_all(doc, first), second),
    decreases first.len(),
{
    if first.len() == 0 {
        assert(first + second =~= second);
    } else {
        assert((first + second).drop_first() =~= first.drop_first() + second);
        lemma_unhindered_joined(doc.applied_unhindered(first[0]), first.drop_first(), second);
    }
}

/// Two additions of different actors that follow one another in a delivery
/// may change places: the document after the delivery is the same.
pub proof fn lemma_unhindered_neighbours(
    doc: DocumentView,
    before: Seq<DocumentOpView>,
    first: DocumentOpView,
    second: DocumentOpView,
    after: Seq<DocumentOpView>,
)
    requires
        first.is_addition(),
        second.is_addition(),
        first.actor() != second.actor(),
    ensures
        unhindered_all(doc, before + seq![first, second] + after) == unhindered_all(
            doc,
            before + seq![second, first] + after,
        ),
{
    let mid = unhindered_all(doc, before);
    lemma_unhindered_joined(doc, before + seq![first, second], after);
    lemma_unhindered_joined(doc, before, seq![first, second]);
    lemma_unhindered_joined(doc, before + seq![second, first], after);
    lemma_unhindered_joined(doc, before, seq![second, first]);
    lemma_additions_commute(mid, first, second);
    assert(unhindered_all(mid, seq![first, second]) == mid.applied_unhindered(first).applied_unhindered(second)) by {
        let ops = seq![first, second];
        assert(ops.drop_first() =~= seq![second]);
        assert(ops.drop_first().drop_first() =~= Seq::<DocumentOpView>::empty());
        reveal_with_fuel(unhindered_all, 3);
    }
    assert(unhindered_all(mid, seq![second, first]) == mid.applied_unhindered(second).applied_unhindered(first)) by {
        let ops = seq![second, first];
        assert(ops.drop_first() =~= seq![first]);
        assert(ops.drop_first().drop_first() =~= Seq::<DocumentOpView>::empty());
        reveal_with_fuel(unhindered_all, 3);
    }
}

proof fn lemma_contains_head_or_rest(ops: Seq<DocumentOpView>, other: DocumentOpView)
    requires
        ops.len() > 0,
    ensures
        ops.contains(other) <==> ops[0] == other || ops.drop_first().contains(other),
{
    let rest = ops.drop_first();
    if ops.contains(other) {
        let i = choose|i: int| 0 <= i < ops.len() && ops[i] == other;
        if i > 0 {
            assert(rest[i - 1] == other);
        }
    }
    if rest.contains(other) {
        let j = choose|j: int| 0 <= j < rest.len() && rest[j] == other;
        assert(ops[j + 1] == other);
    }
    if ops[0] == other {
        assert(ops.contains(other));
    }
}

proof fn lemma_without(ops: Seq<DocumentOpView>, op: DocumentOpView, other: DocumentOpView)
    ensures
        without(ops, op).len() <= ops.len(),
        ops.contains(op) ==> without(ops, op).len() < ops.len(),
        without(ops, op).contains(other) <==> ops.contains(other) && other != op,
    decreases ops.len(),
{
    if ops.len() > 0 {
        let rest = ops.drop_first();
        lemma_without(rest, op, other);
        lemma_contains_head_or_rest(ops, other);
        lemma_contains_head_or_rest(ops, op);
        let out = without(ops, op);
        if ops[0] != op {
            assert(out.drop_first() =~= without(rest, op));
            assert(out[0] == ops[0]);
            lemma_contains_head_or_rest(out, other);
        }
    }
}

/// Every operation of `ops` is an addition.
pub open spec fn all_additions(ops: Seq<DocumentOpView>) -> bool {
    forall|i: int| 0 <= i < ops.len() ==> (#[trigger] ops[i]).is_addition()
}

/// No two different operations of `ops` carry the same dot.
pub open spec fn dots_are_their_own(ops: Seq<DocumentOpView>) -> bool {
    forall|i: int, j: int|
        #![trigger ops[i], ops[j]]
        0 <= i < ops.len() && 0 <= j < ops.len() && ops[i].actor() == ops[j].actor()
            && ops[i].counter() == ops[j].counter() ==> ops[i] == ops[j]
}

/// Each actor's operations arrive in the order of their counters: wherever
/// an operation stands in the delivery, every operation of the same actor
/// that the delivery holds with a lower counter stands somewhere before it.
/// Later repeats may stand anywhere.
pub open spec fn keeps_actor_order(ops: Seq<DocumentOpView>) -> bool {
    forall|i: int, j: int|
        #![trigger ops[i], ops[j]]
        0 <= i < ops.len() && 0 <= j < ops.len() && ops[i].actor() == ops[j].actor()
            && ops[i].counter() < ops[j].counter() ==> exists|k: int|
            0 <= k < j && (#[trigger] ops[k]) == ops[i]
}

/// In `ops` the first occurrences of each actor's operations ascend by
/// counter: no two different operations carry the same dot, and each
/// actor's operations arrive in the order of their counters.
pub open spec fn ascends(ops: Seq<DocumentOpView>) -> bool {
    dots_are_their_own(ops) && keeps_actor_order(ops)
}

/// `op` stands in `ops` before every other operation of its actor.
pub open spec fn leads(ops: Seq<DocumentOpView>, op: DocumentOpView) -> bool {
    &&& ops.contains(op)
    &&& forall|k: int|
        0 <= k < ops.len() && (#[trigger] ops[k]).actor() == op.actor() && ops[k] != op
            ==> exists|before: int| 0 <= before < k && (#[trigger] ops[before]) == op
}

/// An addition that the document has seen may be left out of a delivery.
proof fn lemma_drop_seen(doc: DocumentView, op: DocumentOpView, ops: Seq<DocumentOpView>)
    requires
        op.is_addition(),
        witnessed(doc.clock, op->dot),
        all_additions(ops),
    ensures
        unhindered_all(doc, ops) == unhindered_all(doc, without(ops, op)),
    decreases ops.len(),
{
    if ops.len() > 0 {
        let head = ops[0];
        let rest = ops.drop_first();
        assert(all_additions(rest)) by {
            assert forall|i: int| 0 <= i < rest.len() implies (#[trigger] rest[i]).is_addition() by {
                assert(rest[i] == ops[i + 1]);
            }
        }
        assert(head.is_addition());
        if head == op {
            lemma_drop_seen(doc, op, rest);
        } else {
            lemma_drop_seen(doc.applied_unhindered(head), op, rest);
            let kept = seq![head] + without(rest, op);
            assert(kept.drop_first() =~= without(rest, op));
            assert(kept[0] == head);
        }
    }
}

/// An addition that leads its actor's operations in a delivery may be
/// applied ahead of the delivery, and all its occurrences left out.
proof fn lemma_lead(doc: DocumentView, op: DocumentOpView, ops: Seq<DocumentOpView>)
    requires
        op.is_addition(),
        all_additions(ops),
        leads(ops, op),
    ensures
        unhindered_all(doc, ops) == unhindered_all(doc.applied_unhindered(op), without(ops, op)),
    decreases ops.len(),
{
    let witness = choose|i: int| 0 <= i < ops.len() && ops[i] == op;
    let head = ops[0];
    let rest = ops.drop_first();
    assert(head.is_addition());
    assert(all_additions(rest)) by {
        assert forall|i: int| 0 <= i < rest.len() implies (#[trigger] rest[i]).is_addition() by {
            assert(rest[i] == ops[i + 1]);
        }
    }
    if head == op {
        lemma_drop_seen(doc.applied_unhindered(op), op, rest);
    } else {
        assert(head.actor() != op.actor()) by {
            if head.actor() == op.actor() {
                assert(ops[0].actor() == op.actor() && ops[0] != op);
            }
        }
        assert(leads(rest, op)) by {
            assert(rest[witness - 1] == op);
            assert forall|k: int|
                0 <= k < rest.len() && (#[trigger] rest[k]).actor() == op.actor() && rest[k]
                    != op implies exists|before: int|
                0 <= before < k && (#[trigger] rest[before]) == op by {
                assert(ops[k + 1] == rest[k]);
                let b = choose|before: int| 0 <= before < k + 1 && (#[trigger] ops[before]) == op;
                assert(rest[b - 1] == op);
            }
        }
        lemma_lead(doc.applied_unhindered(head), op, rest);
        lemma_additions_commute(doc, head, op);
        let kept = seq![head] + without(rest, op);
        assert(kept.drop_first() =~= without(rest, op));
        assert(kept[0] == head);
    }
}

/// Where an operation that `without` kept stood before: everything that
/// stood before it there, and was kept, stands before it still.
proof fn lemma_without_place(ops: Seq<DocumentOpView>, op: DocumentOpView, at: int) -> (origin: int)
    requires
        0 <= at < without(ops, op).len(),
    ensures
        0 <= origin < ops.len(),
        ops[origin] == without(ops, op)[at],
        ops[origin] != op,
        forall|k: int|
            #![trigger ops[k]]
            0 <= k < origin && ops[k] != op ==> exists|kept: int|
                0 <= kept < at && (#[trigger] without(ops, op)[kept]) == ops[k],
    decreases ops.len(),
{
    let rest = ops.drop_first();
    let out = without(ops, op);
    let out_rest = without(rest, op);
    if ops[0] == op {
        let o = lemma_without_place(rest, op, at);
        assert forall|k: int| #![trigger ops[k]] 0 <= k < o + 1 && ops[k] != op implies exists|
            kept: int,
        | 0 <= kept < at && (#[trigger] out[kept]) == ops[k] by {
            assert(rest[k - 1] == ops[k]);
        }
        o + 1
    } else if at == 0 {
        0
    } else {
        assert(out =~= seq![ops[0]] + out_rest);
        let o = lemma_without_place(rest, op, at - 1);
        assert(out[at] == out_rest[at - 1]);
        assert forall|k: int| #![trigger ops[k]] 0 <= k < o + 1 && ops[k] != op implies exists|
            kept: int,
        | 0 <= kept < at && (#[trigger] out[kept]) == ops[k] by {
            if k == 0 {
                assert(out[0] == ops[0]);
            } else {
                assert(rest[k - 1] == ops[k]);
                let inner = choose|kept: int|
                    0 <= kept < at - 1 && (#[trigger] out_rest[kept]) == rest[k - 1];
                assert(out[inner + 1] == out_rest[inner]);
            }
        }
        o + 1
    }
}

/// Leaving an operation out of a delivery keeps each actor's order.
proof fn lemma_without_keeps_order(ops: Seq<DocumentOpView>, op: DocumentOpView)
    requires
        keeps_actor_order(ops),
    ensures
        keeps_actor_order(without(ops, op)),
{
    let out = without(ops, op);
    assert forall|i: int, j: int|
        #![trigger out[i], out[j]]
        0 <= i < out.len() && 0 <= j < out.len() && out[i].actor() == out[j].actor()
            && out[i].counter() < out[j].counter() implies exists|k: int|
        0 <= k < j && (#[trigger] out[k]) == out[i] by {
        let oi = lemma_without_place(ops, op, i);
        let oj = lemma_without_place(ops, op, j);
        assert(ops[oi].actor() == ops[oj].actor() && ops[oi].counter() < ops[oj].counter());
        let k = choose|k: int| 0 <= k < oj && (#[trigger] ops[k]) == ops[oi];
        assert(ops[k] != op);
    }
}

/// The step of `lemma_unhindered_delivery`, with the dots' ownership stated over
/// both deliveries at once.
proof fn lemma_causal_delivery(
    doc: DocumentView,
    first: Seq<DocumentOpView>,
    second: Seq<DocumentOpView>,
)
    requires
        doc.settled(),
        all_additions(first + second),
        dots_are_their_own(first + second),
        keeps_actor_order(first),
        keeps_actor_order(second),
        forall|op: DocumentOpView| first.contains(op) <==> second.contains(op),
    ensures
        unhindered_all(doc, first) == unhindered_all(doc, second),
    decreases first.len(),
{
    let both = first + second;
    if first.len() == 0 {
        if second.len() > 0 {
            assert(second.contains(second[0]));
        }
    } else {
        let op = first[0];
        assert(both[0] == op);
        assert(first.contains(op));
        assert(all_additions(first)) by {
            assert forall|i: int| 0 <= i < first.len() implies (#[trigger] first[i]).is_addition() by {
                assert(first[i] == both[i]);
            }
        }
        assert(all_additions(second)) by {
            assert forall|i: int| 0 <= i < second.len() implies (#[trigger] second[i]).is_addition() by {
                assert(second[i] == both[first.len() + i]);
            }
        }
        // No operation of the same actor has a lower counter than the first
        // of the first delivery.
        assert forall|i: int|
            0 <= i < first.len() && (#[trigger] first[i]).actor() == op.actor() implies first[i].counter()
            >= op.counter() by {
            if first[i].counter() < first[0].counter() {
                assert(first[i].actor() == first[0].actor());
                let k = choose|k: int| 0 <= k < 0 && (#[trigger] first[k]) == first[i];
                assert(false);
            }
        }
        assert(leads(first, op)) by {
            assert forall|k: int|
                0 <= k < first.len() && (#[trigger] first[k]).actor() == op.actor() && first[k]
                    != op implies exists|before: int|
                0 <= before < k && (#[trigger] first[before]) == op by {
                assert(first[0] == op);
            }
        }
        let m = choose|m: int| 0 <= m < second.len() && second[m] == op;
        assert(leads(second, op)) by {
            assert forall|k: int|
                0 <= k < second.len() && (#[trigger] second[k]).actor() == op.actor() && second[k]
                    != op implies exists|before: int|
                0 <= before < k && (#[trigger] second[before]) == op by {
                assert(first.contains(second[k]));
                let i = choose|i: int| 0 <= i < first.len() && first[i] == second[k];
                assert(first[i].counter() >= op.counter());
                assert(both[first.len() + k] == second[k]);
                assert(both[0] == op);
                if second[k].counter() == op.counter() {
                    assert(both[first.len() + k].actor() == both[0].actor());
                    assert(both[first.len() + k] == both[0]);
                }
                assert(second[m].actor() == second[k].actor() && second[m].counter()
                    < second[k].counter());
                let b = choose|b: int| 0 <= b < k && (#[trigger] second[b]) == second[m];
                assert(second[b] == op);
            }
        }
        lemma_lead(doc, op, first);
        lemma_lead(doc, op, second);
        let left = without(first, op);
        let right = without(second, op);
        lemma_without(first, op, op);
        assert forall|other: DocumentOpView| left.contains(other) <==> right.contains(other) by {
            lemma_without(first, op, other);
            lemma_without(second, op, other);
        }
        lemma_without_keeps_order(first, op);
        lemma_without_keeps_order(second, op);
        let kept = left + right;
        assert forall|i: int| 0 <= i < kept.len() implies both.contains(#[trigger] kept[i]) by {
            if i < left.len() {
                assert(left.contains(left[i]));
                lemma_without(first, op, kept[i]);
                let j = choose|j: int| 0 <= j < first.len() && first[j] == kept[i];
                assert(both[j] == kept[i]);
            } else {
                assert(right.contains(right[i - left.len()]));
                lemma_without(second, op, kept[i]);
                let j = choose|j: int| 0 <= j < second.len() && second[j] == kept[i];
                assert(both[first.len() + j] == kept[i]);
            }
        }
        assert(all_additions(kept)) by {
            assert forall|i: int| 0 <= i < kept.len() implies (#[trigger] kept[i]).is_addition() by {
                assert(both.contains(kept[i]));
                let j = choose|j: int| 0 <= j < both.len() && both[j] == kept[i];
                assert(both[j].is_addition());
            }
        }
        assert(dots_are_their_own(kept)) by {
            assert forall|i: int, j: int|
                #![trigger kept[i], kept[j]]
                0 <= i < kept.len() && 0 <= j < kept.len() && kept[i].actor() == kept[j].actor()
                    && kept[i].counter() == kept[j].counter() implies kept[i] == kept[j] by {
                assert(both.contains(kept[i]));
                assert(both.contains(kept[j]));
                let a = choose|a: int| 0 <= a < both.len() && both[a] == kept[i];
                let b = choose|b: int| 0 <= b < both.len() && both[b] == kept[j];
                assert(both[a].actor() == both[b].actor() && both[a].counter() == both[b].counter());
            }
        }
        lemma_unhindered_keeps_coherent(doc, op);
        lemma_causal_delivery(doc.applied_unhindered(op), left, right);
    }
}

/// Convergence: two deliveries of the same additions give the same
/// document, in whatever way the actors' operations are mixed and however
/// often they are repeated, provided that in each delivery the first
/// occurrences of each actor's operations ascend by counter.
pub proof fn lemma_unhindered_delivery(
    doc: DocumentView,
    first: Seq<DocumentOpView>,
    second: Seq<DocumentOpView>,
)
    requires
        doc.settled(),
        all_additions(first + second),
        ascends(first),
        ascends(second),
        forall|op: DocumentOpView| first.contains(op) <==> second.contains(op),
    ensures
        unhindered_all(doc, first) == unhindered_all(doc, second),
{
    let both = first + second;
    assert(dots_are_their_own(both)) by {
        assert forall|i: int, j: int|
            #![trigger both[i], both[j]]
            0 <= i < both.len() && 0 <= j < both.len() && both[i].actor() == both[j].actor()
                && both[i].counter() == both[j].counter() implies both[i] == both[j] by {
            if i >= first.len() {
                assert(second.contains(second[i - first.len()]));
            } else {
                assert(first.contains(first[i]));
            }
            if j >= first.len() {
                assert(second.contains(second[j - first.len()]));
            } else {
                assert(first.contains(first[j]));
            }
            let a = choose|a: int| 0 <= a < first.len() && first[a] == both[i];
            let b = choose|b: int| 0 <= b < first.len() && first[b] == both[j];
            assert(first[a].actor() == first[b].actor() && first[a].counter() == first[b].counter());
        }
    }
    lemma_causal_delivery(doc, first, second);
}

/// No lost updates: two actors read the same coherent document, each derives
/// its next dot from that read and adds one element under the same key. Once
/// both additions are applied, in either order, the record holds both
/// elements, each kept alive by its own dot.
pub proof fn lemma_unhindered_survive(
    doc: DocumentView,
    key: u32,
    one: u32,
    other: u32,
    x: Seq<u8>,
    y: Seq<u8>,
)
    requires
        doc.coherent(),
        one != other,
        counter_at(doc.clock, one) < u64::MAX,
        counter_at(doc.clock, other) < u64::MAX,
    ensures
        ({
            let first = addition(next_dot(doc.clock, one), key, seq![x]);
            let second = addition(next_dot(doc.clock, other), key, seq![y]);
            let both = doc.applied_unhindered(first).applied_unhindered(second);
            &&& both == doc.applied_unhindered(second).applied_unhindered(first)
            &&& both.record_at(key).members.contains_key(x)
            &&& both.record_at(key).members.contains_key(y)
            &&& witnessed(both.record_at(key).members[x], next_dot(doc.clock, one))
            &&& witnessed(both.record_at(key).members[y], next_dot(doc.clock, other))
        }),
{
    let d1 = next_dot(doc.clock, one);
    let d2 = next_dot(doc.clock, other);
    let first = addition(d1, key, seq![x]);
    let second = addition(d2, key, seq![y]);
    lemma_additions_commute(doc, first, second);
    assert(seq![x].contains(x)) by {
        assert(seq![x][0] == x);
    }
    assert(seq![y].contains(y)) by {
        assert(seq![y][0] == y);
    }
    assert(dominates(doc.clock, doc.record_at(key).clock)) by {
        if doc.entries.contains_key(key) {
        } else {
            assert forall|actor: u32|
                counter_at(doc.clock, actor) >= #[trigger] counter_at(
                    RecordView::empty().clock,
                    actor,
                ) by {}
        }
    }
    assert(counter_at(doc.clock, one) >= counter_at(doc.record_at(key).clock, one));
    assert(counter_at(doc.clock, other) >= counter_at(doc.record_at(key).clock, other));
    let mid = doc.applied_unhindered(first);
    assert(!witnessed(doc.clock, d1));
    assert(!witnessed(mid.clock, d2));
    assert(mid.entries.contains_key(key));
    let r0 = doc.record_at(key);
    let r1 = mid.record_at(key);
    assert(r1 == r0.with_members_only(d1, seq![x]));
    assert(!witnessed(r0.clock, d1));
    assert(!witnessed(r1.clock, d2));
    let both = mid.applied_unhindered(second);
    assert(both.entries.contains_key(key));
    let r2 = both.record_at(key);
    assert(r2 == r1.with_members_only(d2, seq![y]));
    assert(r1.members.contains_key(x));
    assert(r2.members.contains_key(x));
    assert(r2.members.contains_key(y));
}

} // verus!
