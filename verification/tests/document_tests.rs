use causal_doc::clock::{Dot, VClock};
use causal_doc::ctx::{AddCtx, ReadCtx};
use causal_doc::document::{DocReplica, Document, DocumentOp, OrswotRecord, RecordOp};
use std::collections::BTreeSet;

fn bytes(s: &str) -> Vec<u8> {
    s.as_bytes().to_vec()
}

fn sorted_members(record: &OrswotRecord) -> Vec<Vec<u8>> {
    let mut members = record.read().val;
    members.sort();
    members
}

fn members_at(doc: &Document, key: u32) -> Vec<Vec<u8>> {
    sorted_members(&doc.get_record(key).val.expect("the key is present"))
}

fn clock_of(dots: &[(u32, u64)]) -> VClock {
    let mut clock = VClock::new();
    for (actor, counter) in dots {
        clock.dots.insert(*actor, *counter);
    }
    clock
}

fn add_op(actor: u32, counter: u64, key: u32, members: &[&str]) -> DocumentOp {
    let dot = Dot { actor, counter };
    DocumentOp::Up {
        dot,
        key,
        op: RecordOp::Add { dot, members: members.iter().map(|m| bytes(m)).collect() },
    }
}

#[test]
fn it_works() {
    assert_eq!(2 + 2, 4);
}

#[test]
fn clock_get_is_zero_for_an_unknown_actor() {
    let clock = clock_of(&[(3, 7)]);
    assert_eq!(clock.get(3), 7);
    assert_eq!(clock.get(4), 0);
    assert_eq!(VClock::new().get(0), 0);
}

#[test]
fn derive_add_ctx_advances_only_the_actor() {
    let read = ReadCtx { add_clock: clock_of(&[(1, 4), (2, 9)]), rm_clock: VClock::new(), val: () };
    let ctx = read.derive_add_ctx(1);
    assert_eq!(ctx.dot, Dot { actor: 1, counter: 5 });
    assert_eq!(ctx.clock, clock_of(&[(1, 5), (2, 9)]));
    let fresh = read.derive_add_ctx(7);
    assert_eq!(fresh.dot, Dot { actor: 7, counter: 1 });
    assert_eq!(fresh.clock, clock_of(&[(1, 4), (2, 9), (7, 1)]));
}

#[test]
fn default_document_is_empty() {
    let doc = Document::default();
    assert_eq!(doc.get_read_ctx().add_clock, VClock::new());
    assert_eq!(doc.get_read_ctx().rm_clock, VClock::new());
    assert!(doc.doc_keys().is_empty());
    let read = doc.get_record(1);
    assert!(read.val.is_none());
    assert_eq!(read.rm_clock, VClock::new());
}

#[test]
fn example_holds_three_elements_under_key_one() {
    let doc = Document::example();
    assert_eq!(
        members_at(&doc, 1),
        vec![bytes("another thing"), bytes("thing 1"), bytes("who knows what this is")]
    );
    assert_eq!(doc.get_read_ctx().add_clock, clock_of(&[(0, 1)]));
    assert!(doc.get_record(2).val.is_none());
    let keys = doc.keys_vec();
    assert_eq!(keys.len(), 1);
    assert_eq!(keys[0].val, 1);
    assert_eq!(keys[0].add_clock, clock_of(&[(0, 1)]));
    assert_eq!(keys[0].rm_clock, clock_of(&[(0, 1)]));
}

#[test]
fn record_read_carries_the_record_clock() {
    let doc = Document::example();
    let record = doc.get_record(1).val.unwrap();
    let read = record.read();
    assert_eq!(read.add_clock, clock_of(&[(0, 1)]));
    assert_eq!(read.rm_clock, clock_of(&[(0, 1)]));
    assert_eq!(read.val.len(), 3);
    assert!(OrswotRecord::new().read().val.is_empty());
    assert_eq!(OrswotRecord::new().read().add_clock, VClock::new());
}

#[test]
fn record_add_builds_the_operation_of_the_context() {
    let record = OrswotRecord::new();
    let ctx = AddCtx { clock: clock_of(&[(5, 3)]), dot: Dot { actor: 5, counter: 3 } };
    assert_eq!(
        record.add(bytes("x"), ctx.clone()),
        RecordOp::Add { dot: Dot { actor: 5, counter: 3 }, members: vec![bytes("x")] }
    );
    assert_eq!(
        record.add_all(vec![bytes("b"), bytes("a"), bytes("")], ctx),
        RecordOp::Add {
            dot: Dot { actor: 5, counter: 3 },
            members: vec![bytes("b"), bytes("a"), bytes("")]
        }
    );
}

#[test]
fn update_record_wraps_the_edit_and_leaves_the_document() {
    let mut doc = Document::example();
    let before = doc.clone();
    let ctx = doc.get_read_ctx().derive_add_ctx(2);
    let op = doc.update_record(9, ctx, |set, ctx| {
        assert!(set.read().val.is_empty());
        set.add(bytes("new"), ctx)
    });
    assert_eq!(op, add_op(2, 1, 9, &["new"]));
    assert_eq!(doc, before);
    let ctx = doc.get_read_ctx().derive_add_ctx(2);
    let seen = doc.update_record(1, ctx, |set, ctx| {
        assert_eq!(set.read().val.len(), 3);
        set.add(bytes("more"), ctx)
    });
    assert_eq!(seen, add_op(2, 1, 1, &["more"]));
}

#[test]
fn a_first_write_creates_the_record() {
    let mut doc = Document::default();
    doc.apply(add_op(1, 1, 42, &["a"]));
    assert_eq!(members_at(&doc, 42), vec![bytes("a")]);
    let read = doc.get_record(42);
    assert_eq!(read.add_clock, clock_of(&[(1, 1)]));
    assert_eq!(read.rm_clock, clock_of(&[(1, 1)]));
}

#[test]
fn keys_come_in_ascending_order() {
    let mut doc = Document::default();
    doc.apply(add_op(1, 1, 30, &["c"]));
    doc.apply(add_op(2, 1, 10, &["a"]));
    doc.apply(add_op(3, 1, 20, &["b"]));
    let keys: Vec<u32> = doc.doc_keys().iter().map(|ctx| ctx.val).collect();
    assert_eq!(keys, vec![10, 20, 30]);
    let listed = doc.keys_vec();
    assert_eq!(listed[0].rm_clock, clock_of(&[(2, 1)]));
    assert_eq!(listed[2].rm_clock, clock_of(&[(1, 1)]));
    assert_eq!(listed[1].add_clock, clock_of(&[(1, 1), (2, 1), (3, 1)]));
}

#[test]
fn concurrent_additions_both_survive_in_either_order() {
    let empty = Document::default();
    let ctx_one = empty.get_read_ctx().derive_add_ctx(1);
    let ctx_two = empty.get_read_ctx().derive_add_ctx(2);
    assert_eq!(ctx_one.dot, Dot { actor: 1, counter: 1 });
    assert_eq!(ctx_two.dot, Dot { actor: 2, counter: 1 });
    let mut author = Document::default();
    let op_one = author.update_record(1, ctx_one, |set, ctx| set.add(bytes("thing 1"), ctx));
    let op_two = author.update_record(1, ctx_two, |set, ctx| set.add(bytes("thing 2"), ctx));

    let mut forward = Document::default();
    forward.apply(op_one.clone());
    forward.apply(op_two.clone());
    let mut backward = Document::default();
    backward.apply(op_two);
    backward.apply(op_one);

    let expected = vec![bytes("thing 1"), bytes("thing 2")];
    assert_eq!(members_at(&forward, 1), expected);
    assert_eq!(members_at(&backward, 1), expected);
    assert_eq!(forward, backward);
    assert_eq!(forward.get_read_ctx().add_clock, clock_of(&[(1, 1), (2, 1)]));
}

#[test]
fn concurrent_additions_to_a_filled_document_both_survive() {
    let base = Document::example();
    let ctx_one = base.get_read_ctx().derive_add_ctx(0);
    let ctx_two = base.get_read_ctx().derive_add_ctx(6);
    assert_eq!(ctx_one.dot, Dot { actor: 0, counter: 2 });
    let mut doc = base.clone();
    let op_one = doc.update_record(1, ctx_one, |set, ctx| set.add(bytes("x"), ctx));
    let op_two = doc.update_record(1, ctx_two, |set, ctx| set.add(bytes("y"), ctx));
    doc.apply(op_two);
    doc.apply(op_one);
    let members = members_at(&doc, 1);
    assert_eq!(members.len(), 5);
    assert!(members.contains(&bytes("x")));
    assert!(members.contains(&bytes("y")));
}

#[test]
fn applying_an_update_twice_is_applying_it_once() {
    let mut once = Document::example();
    once.apply(add_op(4, 1, 2, &["p", "q"]));
    let mut twice = Document::example();
    twice.apply(add_op(4, 1, 2, &["p", "q"]));
    twice.apply(add_op(4, 1, 2, &["p", "q"]));
    assert_eq!(once, twice);
    assert_eq!(members_at(&twice, 2), vec![bytes("p"), bytes("q")]);
}

#[test]
fn the_clock_grows_with_each_update() {
    let mut doc = Document::example();
    doc.apply(add_op(3, 5, 1, &["late"]));
    let clock = doc.get_read_ctx().add_clock;
    assert_eq!(clock, clock_of(&[(0, 1), (3, 5)]));
    doc.apply(add_op(3, 2, 1, &["stale"]));
    assert_eq!(doc.get_read_ctx().add_clock, clock_of(&[(0, 1), (3, 5)]));
    assert!(!members_at(&doc, 1).contains(&bytes("stale")));
}

#[test]
fn a_removal_of_keys_leaves_the_clock() {
    let mut doc = Document::example();
    let mut keyset = BTreeSet::new();
    keyset.insert(1u32);
    doc.apply(DocumentOp::Rm { clock: clock_of(&[(9, 5)]), keyset });
    assert_eq!(doc.get_read_ctx().add_clock, clock_of(&[(0, 1)]));
}

#[test]
fn deliveries_in_any_order_with_repeats_converge() {
    let a = add_op(1, 1, 1, &["a", "shared"]);
    let b = add_op(2, 1, 1, &["b", "shared"]);
    let c = add_op(3, 1, 2, &["c"]);
    let orders: Vec<Vec<&DocumentOp>> = vec![
        vec![&a, &b, &c],
        vec![&c, &b, &a],
        vec![&b, &a, &b, &c, &a],
        vec![&c, &c, &a, &b, &b, &a, &c],
    ];
    let mut reference = Document::example();
    reference.apply(a.clone());
    reference.apply(b.clone());
    reference.apply(c.clone());
    for order in orders {
        let mut doc = Document::example();
        for op in order {
            doc.apply(op.clone());
        }
        assert_eq!(doc, reference);
    }
    assert_eq!(members_at(&reference, 2), vec![bytes("c")]);
    assert_eq!(reference.get_read_ctx().add_clock, clock_of(&[(0, 1), (1, 1), (2, 1), (3, 1)]));
}

#[test]
fn an_actor_s_events_out_of_order_lose_the_earlier_one() {
    let first = add_op(1, 1, 1, &["x"]);
    let second = add_op(1, 2, 1, &["y"]);
    let mut in_order = Document::default();
    in_order.apply(first.clone());
    in_order.apply(second.clone());
    let mut reversed = Document::default();
    reversed.apply(second);
    reversed.apply(first);
    assert_eq!(members_at(&in_order, 1), vec![bytes("x"), bytes("y")]);
    assert_eq!(members_at(&reversed, 1), vec![bytes("y")]);
}

#[test]
fn a_replica_logs_what_it_applies() {
    let doc = Document::example();
    let mut replica = DocReplica::from_document(7, &doc);
    assert_eq!(replica.actor(), 7);
    assert!(replica.log().is_empty());
    assert_eq!(replica.document(), &doc);
    let op = add_op(7, 1, 3, &["mine"]);
    replica.apply_op(op.clone());
    replica.apply_op(op.clone());
    assert_eq!(replica.log(), &vec![op.clone(), op]);
    assert_eq!(members_at(replica.document(), 3), vec![bytes("mine")]);
    assert_eq!(members_at(&doc, 1).len(), 3);
    assert!(doc.get_record(3).val.is_none());
}

fn rm_keys(dots: &[(u32, u64)], keys: &[u32]) -> DocumentOp {
    DocumentOp::Rm { clock: clock_of(dots), keyset: keys.iter().copied().collect() }
}

fn rm_members(actor: u32, counter: u64, key: u32, dots: &[(u32, u64)], members: &[&str]) -> DocumentOp {
    DocumentOp::Up {
        dot: Dot { actor, counter },
        key,
        op: RecordOp::Rm { clock: clock_of(dots), members: members.iter().map(|m| bytes(m)).collect() },
    }
}

fn two_writers() -> Document {
    let mut doc = Document::default();
    doc.apply(add_op(1, 1, 1, &["a", "both"]));
    doc.apply(add_op(2, 1, 1, &["b", "both"]));
    doc.apply(add_op(2, 2, 5, &["other"]));
    doc
}

#[test]
fn removing_a_key_whose_every_dot_was_seen_drops_the_entry() {
    let mut doc = Document::example();
    doc.apply(rm_keys(&[(0, 1)], &[1, 8]));
    assert!(doc.get_record(1).val.is_none());
    assert_eq!(doc.get_record(1).rm_clock, VClock::new());
    assert!(doc.doc_keys().is_empty());
    assert_eq!(doc.get_read_ctx().add_clock, clock_of(&[(0, 1)]));
    let once = doc.clone();
    doc.apply(rm_keys(&[(0, 1)], &[1, 8]));
    assert_eq!(doc, once);
    doc.apply(add_op(0, 2, 1, &["z"]));
    assert_eq!(members_at(&doc, 1), vec![bytes("z")]);
    assert_eq!(doc.get_record(1).rm_clock, clock_of(&[(0, 2)]));
}

#[test]
fn removing_a_key_forgets_only_what_the_clock_has_seen() {
    let mut doc = two_writers();
    doc.apply(rm_keys(&[(1, 1)], &[1]));
    let read = doc.get_record(1);
    assert_eq!(read.rm_clock, clock_of(&[(2, 1)]));
    assert_eq!(read.add_clock, clock_of(&[(1, 1), (2, 2)]));
    let record = read.val.expect("the entry stays");
    assert_eq!(sorted_members(&record), vec![bytes("b"), bytes("both")]);
    assert_eq!(record.read().add_clock, clock_of(&[(2, 1)]));
    assert_eq!(members_at(&doc, 5), vec![bytes("other")]);
    assert_eq!(doc.get_record(5).rm_clock, clock_of(&[(2, 2)]));
    let once = doc.clone();
    doc.apply(rm_keys(&[(1, 1)], &[1]));
    assert_eq!(doc, once);
}

#[test]
fn removing_a_key_with_a_lower_clock_changes_no_entry() {
    let mut doc = two_writers();
    let before = doc.clone();
    doc.apply(rm_keys(&[(2, 1)], &[5]));
    assert_eq!(doc, before);
    doc.apply(rm_keys(&[], &[1, 5]));
    assert_eq!(doc, before);
}

#[test]
fn an_update_that_removes_members_forgets_their_seen_dots() {
    let mut doc = two_writers();
    doc.apply(rm_members(3, 1, 1, &[(1, 1)], &["a", "both", "absent"]));
    let read = doc.get_record(1);
    assert_eq!(read.rm_clock, clock_of(&[(1, 1), (2, 1), (3, 1)]));
    assert_eq!(read.add_clock, clock_of(&[(1, 1), (2, 2), (3, 1)]));
    let record = read.val.unwrap();
    assert_eq!(sorted_members(&record), vec![bytes("b"), bytes("both")]);
    assert_eq!(record.read().add_clock, clock_of(&[(1, 1), (2, 1)]));
    doc.apply(rm_members(3, 2, 1, &[(1, 1), (2, 1)], &["both"]));
    assert_eq!(members_at(&doc, 1), vec![bytes("b")]);
    doc.apply(rm_members(3, 3, 9, &[], &["nothing"]));
    assert!(members_at(&doc, 9).is_empty());
    assert_eq!(doc.get_record(9).rm_clock, clock_of(&[(3, 3)]));
    let keys: Vec<u32> = doc.doc_keys().iter().map(|ctx| ctx.val).collect();
    assert_eq!(keys, vec![1, 5, 9]);
}

#[test]
fn a_record_forgets_the_seen_dots_of_removed_members() {
    let mut record = OrswotRecord::new();
    record.apply(RecordOp::Add { dot: Dot { actor: 1, counter: 1 }, members: vec![bytes("a"), bytes("b")] });
    record.apply(RecordOp::Add { dot: Dot { actor: 2, counter: 1 }, members: vec![bytes("a")] });
    record.apply(RecordOp::Rm { clock: clock_of(&[(1, 1)]), members: vec![bytes("a"), bytes("b")] });
    assert_eq!(sorted_members(&record), vec![bytes("a")]);
    assert_eq!(record.read().add_clock, clock_of(&[(1, 1), (2, 1)]));
    record.apply(RecordOp::Rm { clock: clock_of(&[(1, 1), (2, 1)]), members: vec![bytes("a")] });
    assert!(record.read().val.is_empty());
}

fn add_edit(actor: u32, counter: u64, members: &[&str]) -> RecordOp {
    RecordOp::Add { dot: Dot { actor, counter }, members: members.iter().map(|m| bytes(m)).collect() }
}

fn rm_edit(dots: &[(u32, u64)], members: &[&str]) -> RecordOp {
    RecordOp::Rm { clock: clock_of(dots), members: members.iter().map(|m| bytes(m)).collect() }
}

#[test]
fn a_record_holds_back_only_removals_that_have_seen_more() {
    let mut plain = OrswotRecord::new();
    plain.apply(add_edit(1, 1, &[]));
    plain.apply(add_edit(2, 1, &["a"]));

    let mut lower = OrswotRecord::new();
    lower.apply(add_edit(1, 1, &["b"]));
    lower.apply(add_edit(2, 1, &["a"]));
    lower.apply(rm_edit(&[(1, 1)], &["b"]));
    assert_eq!(lower, plain);

    let mut equal = plain.clone();
    equal.apply(rm_edit(&[(1, 1), (2, 1)], &["zzz"]));
    assert_eq!(equal, plain);

    let mut aside = plain.clone();
    aside.apply(rm_edit(&[(3, 1)], &["zzz"]));
    assert_ne!(aside, plain);
    assert_eq!(sorted_members(&aside), vec![bytes("a")]);

    let mut higher = plain.clone();
    higher.apply(rm_edit(&[(1, 1), (2, 1), (3, 1)], &["zzz"]));
    assert_ne!(higher, plain);

    let mut empty = OrswotRecord::new();
    empty.apply(rm_edit(&[], &["zzz"]));
    assert_eq!(empty, OrswotRecord::new());
}

#[test]
fn a_document_holds_back_only_removals_that_it_does_not_dominate() {
    let base = two_writers();
    let mut dominated = base.clone();
    dominated.apply(rm_keys(&[(1, 1), (2, 2)], &[77]));
    assert_eq!(dominated, base);
    let mut ahead = base.clone();
    ahead.apply(rm_keys(&[(1, 2)], &[77]));
    assert_ne!(ahead, base);
    assert_eq!(ahead.get_read_ctx().add_clock, base.get_read_ctx().add_clock);
    let mut aside = base.clone();
    aside.apply(rm_keys(&[(9, 1)], &[77]));
    assert_ne!(aside, base);
    let mut inner = base.clone();
    inner.apply(rm_members(4, 1, 5, &[(2, 2)], &["zzz"]));
    let mut same = base.clone();
    same.apply(add_op(4, 1, 5, &[]));
    assert_ne!(inner.get_record(5).rm_clock, base.get_record(5).rm_clock);
    assert_eq!(inner.get_record(5).val, base.get_record(5).val);
    assert_eq!(inner.get_record(5).rm_clock, same.get_record(5).rm_clock);
}

#[test]
fn deliveries_that_keep_each_actor_s_order_converge() {
    let a1 = add_op(1, 1, 1, &["a1"]);
    let a2 = add_op(1, 2, 2, &["a2"]);
    let b1 = add_op(2, 1, 1, &["b1"]);
    let b2 = add_op(2, 2, 1, &["b2", "a1"]);
    let orders: Vec<Vec<&DocumentOp>> = vec![
        vec![&a1, &a2, &b1, &b2],
        vec![&a1, &b1, &a2, &b2],
        vec![&b1, &a1, &b2, &a2],
        vec![&b1, &b2, &a1, &a2],
        vec![&a1, &b1, &a1, &a2, &b2, &a1, &b1, &a2],
    ];
    let mut docs = Vec::new();
    for order in orders {
        let mut doc = Document::default();
        for op in order {
            doc.apply(op.clone());
        }
        docs.push(doc);
    }
    assert_eq!(docs[0], docs[1]);
    assert_eq!(docs[0], docs[2]);
    assert_eq!(docs[0], docs[3]);
    assert_eq!(docs[0], docs[4]);
    assert_eq!(members_at(&docs[0], 1), vec![bytes("a1"), bytes("b1"), bytes("b2")]);
    assert_eq!(members_at(&docs[0], 2), vec![bytes("a2")]);
    assert_eq!(docs[0].get_read_ctx().add_clock, clock_of(&[(1, 2), (2, 2)]));
}

#[test]
fn removing_keys_drops_the_removals_that_a_record_held_back_and_the_clock_has_seen() {
    let mut held = Document::default();
    held.apply(add_op(1, 1, 7, &[]));
    held.apply(rm_members(5, 1, 7, &[(9, 9)], &["x"]));
    held.apply(rm_keys(&[(9, 9)], &[7]));

    let mut plain = Document::default();
    plain.apply(add_op(1, 1, 7, &[]));
    plain.apply(rm_members(5, 1, 7, &[], &[]));
    plain.apply(rm_keys(&[(9, 9)], &[7]));
    assert_eq!(held, plain);

    let mut kept = Document::default();
    kept.apply(add_op(1, 1, 7, &[]));
    kept.apply(rm_members(5, 1, 7, &[(9, 9), (8, 1)], &["x"]));
    kept.apply(rm_keys(&[(9, 9)], &[7]));
    assert_ne!(kept, plain);
    let mut same = Document::default();
    same.apply(add_op(1, 1, 7, &[]));
    same.apply(rm_members(5, 1, 7, &[(8, 1)], &["x"]));
    same.apply(rm_keys(&[(9, 9)], &[7]));
    assert_eq!(kept, same);
}

#[test]
fn any_operation_applied_twice_is_applied_once() {
    let mut doc = two_writers();
    doc.apply(rm_members(5, 1, 1, &[(9, 9)], &["x"]));
    let ops = vec![
        rm_keys(&[(9, 1)], &[1, 3]),
        rm_keys(&[(1, 1), (9, 9)], &[1, 5]),
        rm_members(6, 1, 5, &[(7, 7)], &["other"]),
        add_op(8, 1, 1, &["late"]),
        rm_keys(&[(2, 2), (7, 7)], &[5]),
    ];
    for op in ops {
        doc.apply(op.clone());
        let once = doc.clone();
        doc.apply(op);
        assert_eq!(doc, once);
    }
}

#[test]
fn members_are_removed_from_a_record_that_holds_a_removal_back() {
    let mut removed = Document::default();
    removed.apply(add_op(1, 1, 7, &["a"]));
    removed.apply(rm_members(5, 1, 7, &[(9, 9)], &["zz"]));
    removed.apply(rm_members(5, 2, 7, &[(1, 1)], &["a"]));

    let mut never = Document::default();
    never.apply(add_op(1, 1, 7, &[]));
    never.apply(rm_members(5, 1, 7, &[(9, 9)], &["zz"]));
    never.apply(rm_members(5, 2, 7, &[], &[]));
    assert_eq!(removed, never);
    assert!(members_at(&removed, 7).is_empty());
    assert_eq!(removed.get_record(7).rm_clock, clock_of(&[(1, 1), (5, 2)]));
    assert_eq!(removed.get_record(7).val.unwrap().read().add_clock, clock_of(&[(1, 1)]));
}

fn record_after(edits: Vec<RecordOp>) -> OrswotRecord {
    let mut record = OrswotRecord::new();
    for edit in edits {
        record.apply(edit);
    }
    record
}

fn document_after(ops: Vec<DocumentOp>) -> Document {
    let mut doc = Document::default();
    for op in ops {
        doc.apply(op);
    }
    doc
}

#[test]
fn an_addition_meets_the_removals_that_a_record_holds_back() {
    // The removal has seen exactly the dot of the addition: what it targets
    // leaves, and the removal is held back no longer.
    let met = record_after(vec![rm_edit(&[(1, 1)], &["a"]), add_edit(1, 1, &["a", "b"])]);
    assert_eq!(met, record_after(vec![add_edit(1, 1, &["b"])]));

    // The removal has seen more than the addition brings: it stays held back.
    let ahead = record_after(vec![rm_edit(&[(1, 2)], &["a"]), add_edit(1, 1, &["a"])]);
    assert_eq!(ahead, record_after(vec![add_edit(1, 1, &[]), rm_edit(&[(1, 2)], &["a"])]));
    assert!(ahead.read().val.is_empty());
    let mut caught_up = ahead.clone();
    caught_up.apply(add_edit(1, 2, &["a"]));
    assert_eq!(caught_up, record_after(vec![add_edit(1, 1, &[]), add_edit(1, 2, &[])]));

    // A removal that has not seen the new dot leaves the new member.
    let unseen = record_after(vec![rm_edit(&[(2, 9)], &["a"]), add_edit(1, 1, &["a"])]);
    assert_eq!(sorted_members(&unseen), vec![bytes("a")]);
    assert_eq!(unseen, record_after(vec![add_edit(1, 1, &["a"]), rm_edit(&[(2, 9)], &["a"])]));
}

#[test]
fn the_targets_of_removals_held_back_under_one_clock_join() {
    let joined = record_after(vec![
        rm_edit(&[(1, 1)], &["a"]),
        rm_edit(&[(1, 1)], &["b"]),
        add_edit(1, 1, &["a", "b", "x"]),
    ]);
    assert_eq!(joined, record_after(vec![add_edit(1, 1, &["x"])]));
    let at_once = record_after(vec![rm_edit(&[(1, 1)], &["a", "b"])]);
    let in_turn = record_after(vec![rm_edit(&[(1, 1)], &["b"]), rm_edit(&[(1, 1)], &["a"])]);
    assert_eq!(at_once, in_turn);
}

#[test]
fn a_member_keeps_the_dots_that_no_removal_held_back_has_seen() {
    let kept = record_after(vec![
        add_edit(2, 1, &["a"]),
        rm_edit(&[(1, 5)], &["a"]),
        rm_edit(&[(3, 5)], &["a", "c"]),
        add_edit(1, 1, &["a", "c"]),
    ]);
    let expected = record_after(vec![
        add_edit(2, 1, &["a"]),
        add_edit(1, 1, &[]),
        rm_edit(&[(3, 5)], &["a", "c"]),
        rm_edit(&[(1, 5)], &["a"]),
    ]);
    assert_eq!(sorted_members(&kept), vec![bytes("a"), bytes("c")]);
    let mut third = kept.clone();
    third.apply(add_edit(3, 1, &["c", "d"]));
    assert_eq!(sorted_members(&third), vec![bytes("a"), bytes("c"), bytes("d")]);
    let mut removed = expected.clone();
    removed.apply(add_edit(3, 1, &["d"]));
    assert_eq!(sorted_members(&removed), vec![bytes("a"), bytes("d")]);
}

#[test]
fn an_update_meets_the_removals_of_keys_that_a_document_holds_back() {
    // A removal of another key is held back, and an addition elsewhere is
    // not touched by it.
    let elsewhere = document_after(vec![rm_keys(&[(9, 1)], &[77]), add_op(1, 1, 2, &["x"])]);
    assert_eq!(members_at(&elsewhere, 2), vec![bytes("x")]);
    assert_eq!(elsewhere.get_record(2).rm_clock, clock_of(&[(1, 1)]));
    assert!(elsewhere.get_record(77).val.is_none());

    // A removal that has seen the new dot takes the new entry away.
    let seen = document_after(vec![rm_keys(&[(9, 5)], &[7]), add_op(9, 1, 7, &["x"])]);
    assert!(seen.get_record(7).val.is_none());
    assert_eq!(seen.get_read_ctx().add_clock, clock_of(&[(9, 1)]));
    let mut later = seen.clone();
    later.apply(add_op(9, 6, 7, &["y"]));
    assert_eq!(members_at(&later, 7), vec![bytes("y")]);
    assert_eq!(later.get_record(7).rm_clock, clock_of(&[(9, 6)]));
    let mut unhindered = Document::default();
    unhindered.apply(add_op(9, 1, 8, &[]));
    unhindered.apply(rm_keys(&[(9, 1)], &[8]));
    unhindered.apply(add_op(9, 6, 7, &["y"]));
    assert_eq!(later, unhindered);

    // An entry that has other dots stays, and loses what the removal has seen.
    let partly = document_after(vec![
        add_op(2, 1, 7, &["old"]),
        rm_keys(&[(9, 5)], &[7, 8]),
        add_op(9, 1, 7, &["x", "old"]),
        add_op(9, 2, 8, &["gone"]),
        add_op(3, 1, 9, &["free"]),
    ]);
    assert_eq!(members_at(&partly, 7), vec![bytes("old")]);
    assert_eq!(partly.get_record(7).rm_clock, clock_of(&[(2, 1)]));
    assert_eq!(partly.get_record(7).val.unwrap().read().add_clock, clock_of(&[(2, 1)]));
    assert!(partly.get_record(8).val.is_none());
    assert_eq!(members_at(&partly, 9), vec![bytes("free")]);
    assert_eq!(partly.get_read_ctx().add_clock, clock_of(&[(2, 1), (3, 1), (9, 2)]));
}

#[test]
fn several_removals_of_keys_held_back_are_met_together() {
    let doc = document_after(vec![
        add_op(1, 1, 7, &["one"]),
        add_op(2, 1, 7, &["two"]),
        add_op(3, 1, 7, &["three"]),
        rm_keys(&[(1, 1), (8, 1)], &[7]),
        rm_keys(&[(2, 1), (9, 1)], &[7, 5]),
    ]);
    assert_eq!(members_at(&doc, 7), vec![bytes("three")]);
    let mut next = doc.clone();
    next.apply(add_op(1, 2, 7, &["one"]));
    next.apply(add_op(9, 1, 5, &["five"]));
    next.apply(add_op(8, 1, 6, &["six"]));
    assert_eq!(members_at(&next, 7), vec![bytes("one"), bytes("three")]);
    assert!(next.get_record(5).val.is_none());
    assert_eq!(members_at(&next, 6), vec![bytes("six")]);
    assert_eq!(next.get_record(7).rm_clock, clock_of(&[(1, 2), (3, 1)]));
    // Once the clock dominates a removal, the removal is held back no more.
    let settled_again = document_after(vec![
        rm_keys(&[(9, 1)], &[5]),
        add_op(9, 1, 4, &["four"]),
        add_op(9, 2, 5, &["five"]),
    ]);
    assert_eq!(
        settled_again,
        document_after(vec![add_op(9, 1, 4, &["four"]), add_op(9, 2, 5, &["five"])])
    );
}

#[test]
fn an_update_makes_a_record_forget_what_a_removal_of_keys_held_back_has_seen() {
    let met = document_after(vec![
        add_op(2, 1, 7, &["old"]),
        rm_keys(&[(9, 5)], &[7]),
        rm_members(5, 1, 7, &[(9, 3), (8, 1)], &["zz"]),
    ]);
    let plain = document_after(vec![
        add_op(2, 1, 7, &["old"]),
        rm_members(5, 1, 7, &[(8, 1)], &["zz"]),
        rm_keys(&[(9, 5)], &[7]),
    ]);
    assert_eq!(met, plain);
    assert_eq!(members_at(&met, 7), vec![bytes("old")]);
    // The removal that the record still holds back meets a later addition.
    let mut later = met.clone();
    later.apply(add_op(8, 1, 7, &["zz", "yy"]));
    assert_eq!(members_at(&later, 7), vec![bytes("old"), bytes("yy")]);
}
