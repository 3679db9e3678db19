//! The single-slot, latest-value-wins conduit between the event-processing
//! context and the device-writing context: the producer overwrites, the
//! consumer takes and clears, so a slow consumer always acts on the newest
//! effective volume and never on a superseded one.

use vstd::prelude::*;
use crate::aggregator::NodeFacts;

verus! {

/// A mailbox holding at most one pending effective volume. The waiting and
/// waking between the two execution contexts wrap around this slot; its
/// replace and take-and-clear semantics live here.
pub struct Handoff {
    /// The one pending value, if any: an effective volume, itself `None`
    /// while no default sink with known facts exists.
    pub slot: Option<Option<NodeFacts>>,
}

/// The slot after a burst of produced values lands on a starting state, each
/// overwriting the one before it.
pub open spec fn slot_after_burst(
    start: Option<Option<NodeFacts>>,
    burst: Seq<Option<NodeFacts>>,
) -> Option<Option<NodeFacts>>
    decreases burst.len(),
{
    if burst.len() == 0 {
        start
    } else {
        slot_after_burst(Some(burst[0]), burst.drop_first())
    }
}

impl Handoff {
    /// An empty slot: nothing pending.
    pub fn new() -> (r: Self)
        ensures
            r.slot is None,
    {
        Handoff { slot: None }
    }

    /// Producer side: publishes a value, unconditionally overwriting any
    /// unconsumed previous one. There is no queue and no backpressure; the
    /// producer never waits.
    pub fn put(&mut self, value: Option<NodeFacts>)
        ensures
            final(self).slot == Some(value),
    {
        self.slot = Some(value);
    }

    /// Consumer side: takes the pending value, leaving the slot empty;
    /// nothing comes back while nothing is pending.
    pub fn take(&mut self) -> (r: Option<Option<NodeFacts>>)
        ensures
            r == old(self).slot,
            final(self).slot is None,
    {
        let r = match &self.slot {
            Some(v) => Some(*v),
            None => None,
        };
        self.slot = None;
        r
    }
}

/// Law (coalescing): when a burst of values is produced before the consumer
/// takes any, the slot holds exactly the burst's newest value; every earlier
/// value of the burst, and whatever was pending before it, is superseded
/// and never observed.
pub proof fn lemma_burst_coalesces(
    start: Option<Option<NodeFacts>>,
    burst: Seq<Option<NodeFacts>>,
)
    requires
        burst.len() > 0,
    ensures
        slot_after_burst(start, burst) == Some(burst.last()),
    decreases burst.len(),
{
    if burst.len() == 1 {
        assert(burst.drop_first().len() == 0);
        assert(slot_after_burst(Some(burst[0]), burst.drop_first()) == Some(burst[0]));
    } else {
        lemma_burst_coalesces(Some(burst[0]), burst.drop_first());
        assert(burst.drop_first().last() == burst.last());
    }
}

} // verus!
