//! The topic bus: an in-process publish/subscribe substrate. A producer
//! publishes an `i64` sample to a numeric topic id; a consumer reads the
//! latest value (last write wins) and how many times the topic was published.

use std::collections::BTreeMap;
use vstd::prelude::*;
use vstd::std_specs::iter::IteratorSpec;
use vstd::std_specs::cmp::OrdSpec;

verus! {

/// A numeric topic identifier.
pub type TopicId = i32;

/// What the bus knows of each topic that was ever published to: the most
/// recent sample and the number of publishes.
pub type BusState = Map<TopicId, (i64, nat)>;

/// A bus state is valid when every topic it holds was published at least once.
pub open spec fn bus_valid(s: BusState) -> bool {
    forall|t: TopicId| #[trigger] s.contains_key(t) ==> s[t].1 >= 1
}

/// The most recent value on `t`, or `None` if nothing was ever published.
pub open spec fn bus_latest(s: BusState, t: TopicId) -> Option<i64> {
    if s.contains_key(t) { Some(s[t].0) } else { None }
}

/// How many times `t` was published to.
pub open spec fn bus_count(s: BusState, t: TopicId) -> nat {
    if s.contains_key(t) { s[t].1 } else { 0 }
}

/// The state after publishing `v` to `t`: `v` becomes the latest value and
/// the publish count of `t` grows by one.
pub open spec fn bus_publish(s: BusState, t: TopicId, v: i64) -> BusState {
    s.insert(t, (v, bus_count(s, t) + 1))
}

/// Topic ids in strictly increasing order.
pub open spec fn strictly_increasing(s: Seq<TopicId>) -> bool {
    forall|i: int, j: int| 0 <= i < j < s.len() ==> s[i] < s[j]
}

/// Keys that a `BTreeMap` yields in increasing order are strictly increasing integers.
proof fn lemma_increasing_keys(rem: Seq<&TopicId>)
    requires
        vstd::std_specs::btree::increasing_seq(rem),
    ensures
        strictly_increasing(rem.unref()),
{
    assert(vstd::laws_cmp::obeys_cmp::<TopicId>());
    assert(vstd::laws_cmp::obeys_cmp::<&TopicId>());
    assert forall|i: int, j: int| 0 <= i < j < rem.len() implies rem.unref()[i] < rem.unref()[j] by {
        assert((&rem[i]).cmp_spec(&&rem[j]) is Less);
    }
}

/// A fresh bus holds no value on any topic, has counted no publish, and is valid.
pub proof fn law_empty_bus(t: TopicId)
    ensures
        bus_latest(Map::empty(), t) is None,
        bus_count(Map::empty(), t) == 0,
        bus_valid(Map::empty()),
{
}

/// Last write wins: after publishing `v` to `t`, the latest value on `t` is `v`.
pub proof fn law_latest_after_publish(s: BusState, t: TopicId, v: i64)
    ensures
        bus_latest(bus_publish(s, t, v), t) == Some(v),
{
}

/// Each publish to `t` adds one to the publish count of `t`.
pub proof fn law_count_after_publish(s: BusState, t: TopicId, v: i64)
    ensures
        bus_count(bus_publish(s, t, v), t) == bus_count(s, t) + 1,
{
}

/// Topics are independent: publishing to `t` changes nothing on another topic.
pub proof fn law_publish_leaves_other_topics(s: BusState, t: TopicId, u: TopicId, v: i64)
    requires
        u != t,
    ensures
        bus_latest(bus_publish(s, t, v), u) == bus_latest(s, u),
        bus_count(bus_publish(s, t, v), u) == bus_count(s, u),
{
}

/// Publishing keeps a bus valid.
pub proof fn law_publish_keeps_valid(s: BusState, t: TopicId, v: i64)
    requires
        bus_valid(s),
    ensures
        bus_valid(bus_publish(s, t, v)),
{
}

/// On a valid bus, a topic holds no value exactly when it was never published to.
pub proof fn law_no_value_iff_never_published(s: BusState, t: TopicId)
    requires
        bus_valid(s),
    ensures
        bus_latest(s, t) is None <==> bus_count(s, t) == 0,
{
}

/// The state of a fresh bus after the publishes `ps`, in order, each a
/// topic and a value.
pub open spec fn bus_after(ps: Seq<(TopicId, i64)>) -> BusState
    decreases ps.len(),
{
    if ps.len() == 0 {
        Map::empty()
    } else {
        bus_publish(bus_after(ps.drop_last()), ps.last().0, ps.last().1)
    }
}

/// How many of the publishes `ps` went to `t`.
pub open spec fn publishes_to(ps: Seq<(TopicId, i64)>, t: TopicId) -> nat
    decreases ps.len(),
{
    if ps.len() == 0 {
        0
    } else {
        publishes_to(ps.drop_last(), t) + if ps.last().0 == t { 1nat } else { 0nat }
    }
}

/// The value of the last of the publishes `ps` that went to `t`, if any did.
pub open spec fn last_published(ps: Seq<(TopicId, i64)>, t: TopicId) -> Option<i64>
    decreases ps.len(),
{
    if ps.len() == 0 {
        None
    } else if ps.last().0 == t {
        Some(ps.last().1)
    } else {
        last_published(ps.drop_last(), t)
    }
}

/// One more publish extends the sequence: a bus in state `bus_after(ps)`
/// that publishes `v` to `t` (by `TopicBus::publish`) is in state
/// `bus_after(ps.push((t, v)))`; `TopicBus::new` starts in `bus_after` of
/// the empty sequence.
pub proof fn law_bus_after_push(ps: Seq<(TopicId, i64)>, t: TopicId, v: i64)
    ensures
        bus_after(ps.push((t, v))) == bus_publish(bus_after(ps), t, v),
        bus_after(Seq::empty()) == Map::<TopicId, (i64, nat)>::empty(),
{
    assert(ps.push((t, v)).drop_last() =~= ps);
}

/// After any sequence of publishes on a fresh bus, each topic holds the value
/// of the last publish to it (none if there was none), its count is the
/// number of publishes to it, and the bus is valid, so a topic holds a value
/// exactly when its count is positive.
pub proof fn law_bus_after_publishes(ps: Seq<(TopicId, i64)>, t: TopicId)
    ensures
        bus_latest(bus_after(ps), t) == last_published(ps, t),
        bus_count(bus_after(ps), t) == publishes_to(ps, t),
        bus_valid(bus_after(ps)),
        bus_latest(bus_after(ps), t) is Some <==> publishes_to(ps, t) > 0,
    decreases ps.len(),
{
    if ps.len() > 0 {
        law_bus_after_publishes(ps.drop_last(), t);
        let prev = ps.drop_last();
        assert forall|u: TopicId| #[trigger] bus_after(ps).contains_key(u) implies bus_after(ps)[u].1 >= 1 by {
            law_bus_after_publishes(prev, u);
        }
    }
}

#[derive(Debug)]
pub struct TopicBus {
    entries: BTreeMap<TopicId, (i64, u64)>,
}

impl View for TopicBus {
    type V = BusState;

    closed spec fn view(&self) -> BusState {
        Map::new(
            |t: TopicId| self.entries@.contains_key(t),
            |t: TopicId| (self.entries@[t].0, self.entries@[t].1 as nat),
        )
    }
}

impl TopicBus {
    #[verifier::type_invariant]
    closed spec fn counts_positive(self) -> bool {
        forall|t: TopicId| #[trigger] self.entries@.contains_key(t) ==> self.entries@[t].1 >= 1
    }

    /// An empty bus: no topic holds a value.
    pub fn new() -> (bus: Self)
        ensures
            bus@ == Map::<TopicId, (i64, nat)>::empty(),
            bus_valid(bus@),
    {
        let bus = TopicBus { entries: BTreeMap::new() };
        assert(bus@ =~= Map::<TopicId, (i64, nat)>::empty());
        bus
    }

    /// Publish `value` to `topic` (last write wins) and bump its publish count.
    pub fn publish(&mut self, topic: TopicId, value: i64)
        requires
            bus_count(old(self)@, topic) < u64::MAX,
        ensures
            final(self)@ == bus_publish(old(self)@, topic, value),
            bus_valid(final(self)@),
    {
        proof {
            use_type_invariant(&*self);
        }
        let n: u64 = match self.entries.get(&topic) {
            Some(e) => e.1,
            None => 0,
        };
        let mut entries = BTreeMap::new();
        std::mem::swap(&mut entries, &mut self.entries);
        entries.insert(topic, (value, n + 1));
        self.entries = entries;
        assert(self@ =~= bus_publish(old(self)@, topic, value));
    }

    /// The most recent value on `topic`, or `None` if nothing was ever published.
    pub fn latest(&self, topic: TopicId) -> (r: Option<i64>)
        ensures
            r == bus_latest(self@, topic),
            bus_valid(self@),
    {
        proof {
            use_type_invariant(self);
        }
        match self.entries.get(&topic) {
            Some(e) => Some(e.0),
            None => None,
        }
    }

    /// How many times `topic` has been published to.
    pub fn count(&self, topic: TopicId) -> (r: u64)
        ensures
            r == bus_count(self@, topic),
            bus_valid(self@),
    {
        proof {
            use_type_invariant(self);
        }
        match self.entries.get(&topic) {
            Some(e) => e.1,
            None => 0,
        }
    }

    /// Topics that currently hold a value, in increasing order.
    pub fn topics(&self) -> (r: Vec<TopicId>)
        ensures
            strictly_increasing(r@),
            r@.to_set() == self@.dom(),
            bus_valid(self@),
    {
        proof {
            use_type_invariant(self);
        }
        let mut out: Vec<TopicId> = Vec::new();
        let keys = self.entries.keys();
        let ghost ks: Seq<TopicId> = keys.remaining().map_values(|k: &TopicId| *k);
        for t in it: keys
            invariant
                out@ =~= it.seq().take(it.index()).map_values(|k: &TopicId| *k),
                it.seq().map_values(|k: &TopicId| *k) == ks,
        {
            out.push(*t);
        }
        assert(out@ =~= ks);
        proof {
            assert(ks =~= keys.remaining().unref());
            lemma_increasing_keys(keys.remaining());
        }
        out
    }
}

impl Default for TopicBus {
    fn default() -> (bus: Self)
        ensures
            bus@ == Map::<TopicId, (i64, nat)>::empty(),
    {
        TopicBus::new()
    }
}

impl Clone for TopicBus {
    fn clone(&self) -> (bus: Self)
        ensures
            bus@ == self@,
    {
        proof {
            use_type_invariant(self);
        }
        let bus = TopicBus { entries: self.entries.clone() };
        assert(bus@ =~= self@);
        bus
    }
}

} // verus!
