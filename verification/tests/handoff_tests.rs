use qmk_volume::aggregator::NodeFacts;
use qmk_volume::handoff::Handoff;

fn facts(volume: u32, muted: bool) -> NodeFacts {
    NodeFacts { volume, muted }
}

#[test]
fn burst_coalesces_to_newest() {
    let mut slot = Handoff::new();
    let a = Some(facts(100000, false));
    let b = Some(facts(200000, false));
    let c = Some(facts(300000, true));
    slot.put(a);
    slot.put(b);
    slot.put(c);
    // The consumer observes only the newest value of the burst.
    assert_eq!(slot.take(), Some(c));
    // Nothing else is left behind.
    assert_eq!(slot.take(), None);
}

#[test]
fn take_on_empty_slot_yields_nothing() {
    let mut slot = Handoff::new();
    assert_eq!(slot.take(), None);
}

#[test]
fn unset_effective_volume_is_carried_too() {
    let mut slot = Handoff::new();
    slot.put(Some(facts(500000, false)));
    slot.put(None);
    // "No effective volume" supersedes a pending value like any other.
    assert_eq!(slot.take(), Some(None));
}

#[test]
fn each_value_is_taken_at_most_once() {
    let mut slot = Handoff::new();
    slot.put(Some(facts(1, true)));
    assert_eq!(slot.take(), Some(Some(facts(1, true))));
    slot.put(Some(facts(2, false)));
    assert_eq!(slot.take(), Some(Some(facts(2, false))));
    assert_eq!(slot.take(), None);
}
