//! Dots and vector clocks: the causal bookkeeping that every other part of the
//! store is built on.

use std::collections::BTreeMap;
use vstd::prelude::*;

verus! {

/// One causal event: the `counter`-th event that `actor` originated.
#[derive(Clone, Copy, Debug, PartialEq, Eq, Structural)]
pub struct Dot {
    pub actor: u32,
    pub counter: u64,
}

/// A vector clock: for each actor the highest counter seen from it. An actor
/// that is absent stands at zero.
#[derive(Debug, PartialEq, Eq)]
pub struct VClock {
    pub dots: BTreeMap<u32, u64>,
}

impl View for VClock {
    type V = Map<u32, u64>;

    open spec fn view(&self) -> Map<u32, u64> {
        self.dots@
    }
}

/// The counter that clock `c` holds for `actor`.
pub open spec fn counter_at(c: Map<u32, u64>, actor: u32) -> u64 {
    if c.contains_key(actor) {
        c[actor]
    } else {
        0
    }
}

/// Clock `c` has seen the event `dot`.
pub open spec fn witnessed(c: Map<u32, u64>, dot: Dot) -> bool {
    counter_at(c, dot.actor) >= dot.counter
}

/// Clock `c` after it has seen `dot`: the actor's counter is raised to the
/// dot's, and never lowered.
pub open spec fn advanced(c: Map<u32, u64>, dot: Dot) -> Map<u32, u64> {
    if witnessed(c, dot) {
        c
    } else {
        c.insert(dot.actor, dot.counter)
    }
}

/// Clock `c` holds no actor at all.
pub open spec fn is_blank(c: Map<u32, u64>) -> bool {
    forall|actor: u32| !c.contains_key(actor)
}

/// Clock `c` without what `seen` has seen: an actor leaves the clock where
/// `seen` holds it at least as high as `c` does.
pub open spec fn forgotten(c: Map<u32, u64>, seen: Map<u32, u64>) -> Map<u32, u64> {
    c.remove_keys(Set::new(|actor: u32| seen.contains_key(actor) && seen[actor] >= counter_at(c, actor)))
}

/// Clock `c` without what any clock of `seen` has seen: an actor leaves the
/// clock where one of them holds it at least as high as `c` does. This is
/// what remains when `c` forgets the clocks of `seen` one after the other,
/// in any order.
pub open spec fn forgotten_all(c: Map<u32, u64>, seen: Set<Map<u32, u64>>) -> Map<u32, u64> {
    c.remove_keys(
        Set::new(
            |actor: u32|
                exists|one: Map<u32, u64>|
                    #[trigger] seen.contains(one) && one.contains_key(actor) && one[actor]
                        >= counter_at(c, actor),
        ),
    )
}

/// The dot of `actor`'s next event after clock `c`.
pub open spec fn next_dot(c: Map<u32, u64>, actor: u32) -> Dot
    recommends
        counter_at(c, actor) < u64::MAX,
{
    Dot { actor, counter: (counter_at(c, actor) + 1) as u64 }
}

/// `a` dominates `b`: no actor stands lower in `a` than in `b`.
pub open spec fn dominates(a: Map<u32, u64>, b: Map<u32, u64>) -> bool {
    forall|actor: u32| counter_at(a, actor) >= #[trigger] counter_at(b, actor)
}

/// The point-wise maximum of two clocks: `a` with every actor raised to its
/// counter in `b` where that is higher.
pub open spec fn merged(a: Map<u32, u64>, b: Map<u32, u64>) -> Map<u32, u64> {
    Map::new(
        |actor: u32| a.contains_key(actor) || counter_at(b, actor) > counter_at(a, actor),
        |actor: u32|
            if counter_at(b, actor) > counter_at(a, actor) {
                counter_at(b, actor)
            } else {
                counter_at(a, actor)
            },
    )
}

/// Calls `merge` of `crdts::CvRDT` on two `crdts::VClock`. That function
/// applies each dot of the other clock, and a dot is recorded where it is
/// higher than what the clock holds: the result is `merged`.
#[verifier::external_body]
fn merge_into(a: &mut VClock, b: VClock)
    ensures
        final(a)@ == merged(old(a)@, b@),
{
    let mut outside = crdts::VClock { dots: std::mem::take(&mut a.dots) };
    crdts::CvRDT::merge(&mut outside, crdts::VClock { dots: b.dots });
    a.dots = outside.dots;
}

/// Compares two `crdts::VClock` with `>=`. That comparison holds where the
/// clocks are equal, and where the first stands at least as high as the
/// second for every actor of the second.
#[verifier::external_body]
fn reaches(a: &VClock, b: &VClock) -> (r: bool)
    ensures
        r == dominates(a@, b@),
{
    crdts::VClock { dots: a.dots.clone() } >= crdts::VClock { dots: b.dots.clone() }
}

/// Calls `crdts::VClock::inc`, which gives the dot after the actor's counter
/// and leaves the clock as it is.
#[verifier::external_body]
fn dot_after(c: &VClock, actor: u32) -> (r: Dot)
    requires
        counter_at(c@, actor) < u64::MAX,
    ensures
        r == next_dot(c@, actor),
{
    let dot = crdts::VClock { dots: c.dots.clone() }.inc(actor);
    Dot { actor: dot.actor, counter: dot.counter }
}

/// Calls `apply` of `crdts::CmRDT` on a `crdts::VClock`, which records the
/// dot where it is higher than the actor's counter.
#[verifier::external_body]
fn record_dot(c: &mut VClock, dot: Dot)
    ensures
        final(c)@ == advanced(old(c)@, dot),
{
    let mut outside = crdts::VClock { dots: std::mem::take(&mut c.dots) };
    crdts::CmRDT::apply(&mut outside, crdts::Dot::new(dot.actor, dot.counter));
    c.dots = outside.dots;
}

impl Clone for VClock {
    fn clone(&self) -> (r: Self)
        ensures
            r@ == self@,
    {
        VClock { dots: self.dots.clone() }
    }
}

impl VClock {
    /// The clock that has seen nothing.
    pub fn new() -> (r: Self)
        ensures
            r@ == Map::<u32, u64>::empty(),
    {
        VClock { dots: BTreeMap::new() }
    }

    /// Whether this clock dominates `other`: no actor stands lower here
    /// than there.
    pub fn dominates(&self, other: &VClock) -> (r: bool)
        ensures
            r == dominates(self@, other@),
    {
        reaches(self, other)
    }

    /// Merges `other` into this clock: each actor is raised to the higher
    /// of its two counters.
    pub fn merge(&mut self, other: VClock)
        ensures
            final(self)@ == merged(old(self)@, other@),
            dominates(final(self)@, old(self)@),
            dominates(final(self)@, other@),
    {
        proof {
            lemma_merged_laws(self@, other@, other@);
        }
        merge_into(self, other);
    }

    /// The dot of `actor`'s next event. The clock is not changed: the dot
    /// has to be applied. The counter must have room to grow.
    pub fn inc(&self, actor: u32) -> (r: Dot)
        requires
            counter_at(self@, actor) < u64::MAX,
        ensures
            r == next_dot(self@, actor),
    {
        dot_after(self, actor)
    }

    /// Records `dot`: the actor's counter is raised to the dot's, and left
    /// where it is already as high.
    pub fn apply(&mut self, dot: Dot)
        ensures
            final(self)@ == advanced(old(self)@, dot),
            dominates(final(self)@, old(self)@),
            witnessed(final(self)@, dot),
    {
        record_dot(self, dot);
    }

    /// Raises `actor`'s counter by one and gives the dot of that event. The
    /// counter must have room to grow.
    pub fn increment(&mut self, actor: u32) -> (r: Dot)
        requires
            counter_at(old(self)@, actor) < u64::MAX,
        ensures
            r == next_dot(old(self)@, actor),
            final(self)@ == old(self)@.insert(actor, r.counter),
    {
        let dot = self.inc(actor);
        self.apply(dot);
        dot
    }

    /// The counter held for `actor`, zero if the clock has never seen it.
    pub fn get(&self, actor: u32) -> (r: u64)
        ensures
            r == counter_at(self@, actor),
    {
        match self.dots.get(&actor) {
            Some(c) => *c,
            None => 0,
        }
    }
}

/// Forgetting what one clock has seen is forgetting what any clock of a set
/// of that one clock has seen.
pub proof fn lemma_forgotten_one(c: Map<u32, u64>, seen: Map<u32, u64>)
    ensures
        forgotten_all(c, set![seen]) == forgotten(c, seen),
{
    assert forall|actor: u32|
        forgotten_all(c, set![seen]).contains_key(actor) == forgotten(c, seen).contains_key(
            actor,
        ) by {
        if seen.contains_key(actor) && seen[actor] >= counter_at(c, actor) {
            assert(set![seen].contains(seen));
        }
    }
    assert(forgotten_all(c, set![seen]) =~= forgotten(c, seen));
}

/// Dots of two different actors may be seen in either order.
pub proof fn lemma_advanced_commutes(c: Map<u32, u64>, first: Dot, second: Dot)
    requires
        first.actor != second.actor,
    ensures
        advanced(advanced(c, first), second) == advanced(advanced(c, second), first),
        witnessed(advanced(c, first), second) == witnessed(c, second),
{
    assert(advanced(advanced(c, first), second) =~= advanced(advanced(c, second), first));
}

/// Dominance is a partial order on what clocks count: it is reflexive and
/// transitive, and two clocks that dominate one another count the same for
/// every actor.
pub proof fn lemma_dominates_order(a: Map<u32, u64>, b: Map<u32, u64>, c: Map<u32, u64>)
    ensures
        dominates(a, a),
        dominates(a, b) && dominates(b, c) ==> dominates(a, c),
        dominates(a, b) && dominates(b, a) ==> forall|actor: u32| #[trigger]
            counter_at(a, actor) == counter_at(b, actor),
{
    if dominates(a, b) && dominates(b, c) {
        assert forall|actor: u32| counter_at(a, actor) >= #[trigger] counter_at(c, actor) by {
            assert(counter_at(a, actor) >= counter_at(b, actor));
            assert(counter_at(b, actor) >= counter_at(c, actor));
        }
    }
    if dominates(a, b) && dominates(b, a) {
        assert forall|actor: u32| #[trigger] counter_at(a, actor) == counter_at(b, actor) by {
            assert(counter_at(a, actor) >= counter_at(b, actor));
            assert(counter_at(b, actor) >= counter_at(a, actor));
        }
    }
}

/// The merge of two clocks counts for each actor the higher of the two
/// counters. So it dominates both, and merging is commutative, associative
/// and idempotent in what the clocks count.
pub proof fn lemma_merged_laws(a: Map<u32, u64>, b: Map<u32, u64>, c: Map<u32, u64>)
    ensures
        forall|actor: u32| #[trigger]
            counter_at(merged(a, b), actor) == if counter_at(a, actor) >= counter_at(b, actor) {
                counter_at(a, actor)
            } else {
                counter_at(b, actor)
            },
        dominates(merged(a, b), a),
        dominates(merged(a, b), b),
        forall|actor: u32| #[trigger]
            counter_at(merged(a, b), actor) == counter_at(merged(b, a), actor),
        forall|actor: u32| #[trigger]
            counter_at(merged(merged(a, b), c), actor) == counter_at(
                merged(a, merged(b, c)),
                actor,
            ),
        merged(a, a) == a,
{
    assert(merged(a, a) =~= a);
}

} // verus!
