use qmk_volume::aggregator::{NodeFacts, Subscription, VolumeAggregator};

fn facts(volume: u32, muted: bool) -> NodeFacts {
    NodeFacts { volume, muted }
}

#[test]
fn emission_only_on_change() {
    let mut agg = VolumeAggregator::new();

    // Facts for a node that is not the default sink: nothing is emitted.
    let emit = agg.set_volume_for_node("sink-a".to_owned(), Some(500000), Some(false));
    assert_eq!(emit, None);

    // The node becomes the default sink: its facts become effective.
    let emit = agg.set_default_sink("sink-a".to_owned());
    assert_eq!(emit, Some(Some(facts(500000, false))));

    // A repeated identical update is suppressed.
    let emit = agg.set_volume_for_node("sink-a".to_owned(), Some(500000), Some(false));
    assert_eq!(emit, None);

    // A real change is emitted exactly once.
    let emit = agg.set_volume_for_node("sink-a".to_owned(), Some(250000), Some(false));
    assert_eq!(emit, Some(Some(facts(250000, false))));
    let emit = agg.set_volume_for_node("sink-a".to_owned(), Some(250000), Some(false));
    assert_eq!(emit, None);
}

#[test]
fn repeated_default_sink_is_noop() {
    let mut agg = VolumeAggregator::new();
    agg.set_volume_for_node("sink-a".to_owned(), Some(100000), Some(false));
    let emit = agg.set_default_sink("sink-a".to_owned());
    assert_eq!(emit, Some(Some(facts(100000, false))));
    let emit = agg.set_default_sink("sink-a".to_owned());
    assert_eq!(emit, None);
}

#[test]
fn order_tolerance_default_known_before_facts() {
    let mut agg = VolumeAggregator::new();
    // The default sink is announced before any facts exist: nothing to
    // emit, the effective volume is still unknown.
    let emit = agg.set_default_sink("sink-a".to_owned());
    assert_eq!(emit, None);
    assert_eq!(agg.effective_volume(), None);
    // The facts arrive afterwards: the same value is emitted as if the
    // order had been reversed.
    let emit = agg.set_volume_for_node("sink-a".to_owned(), Some(750000), Some(true));
    assert_eq!(emit, Some(Some(facts(750000, true))));
}

#[test]
fn partial_update_merges_fields() {
    let mut agg = VolumeAggregator::new();
    agg.set_volume_for_node("sink-a".to_owned(), Some(500000), Some(false));
    // A mute-only update keeps the known volume: (0.5, false) becomes
    // (0.5, true), not (absent, true).
    agg.set_volume_for_node("sink-a".to_owned(), None, Some(true));
    assert_eq!(
        agg.get_node_facts(&"sink-a".to_owned()),
        Some(facts(500000, true))
    );
    // A volume-only update keeps the known mute flag.
    agg.set_volume_for_node("sink-a".to_owned(), Some(200000), None);
    assert_eq!(
        agg.get_node_facts(&"sink-a".to_owned()),
        Some(facts(200000, true))
    );
}

#[test]
fn partial_update_for_unknown_node_creates_nothing() {
    let mut agg = VolumeAggregator::new();
    agg.set_volume_for_node("sink-a".to_owned(), None, Some(true));
    assert_eq!(agg.get_node_facts(&"sink-a".to_owned()), None);
    agg.set_volume_for_node("sink-a".to_owned(), Some(300000), None);
    assert_eq!(agg.get_node_facts(&"sink-a".to_owned()), None);
}

#[test]
fn removing_default_sink_unsets_effective() {
    let mut agg = VolumeAggregator::new();
    agg.set_volume_for_node("sink-a".to_owned(), Some(400000), Some(false));
    agg.set_default_sink("sink-a".to_owned());
    let emit = agg.remove_node(&"sink-a".to_owned());
    assert_eq!(emit, Some(None));
    assert_eq!(agg.effective_volume(), None);
    assert_eq!(agg.get_node_facts(&"sink-a".to_owned()), None);
}

#[test]
fn node_reappearing_restores_effective() {
    let mut agg = VolumeAggregator::new();
    agg.set_volume_for_node("sink-a".to_owned(), Some(400000), Some(false));
    agg.set_default_sink("sink-a".to_owned());
    agg.remove_node(&"sink-a".to_owned());
    // The facts stay absent until a node with that name reappears.
    assert_eq!(agg.effective_volume(), None);
    let emit = agg.set_volume_for_node("sink-a".to_owned(), Some(400000), Some(false));
    assert_eq!(emit, Some(Some(facts(400000, false))));
}

#[test]
fn removal_of_other_node_is_invisible() {
    let mut agg = VolumeAggregator::new();
    agg.set_volume_for_node("sink-a".to_owned(), Some(400000), Some(false));
    agg.set_volume_for_node("sink-b".to_owned(), Some(900000), Some(true));
    agg.set_default_sink("sink-a".to_owned());
    let emit = agg.remove_node(&"sink-b".to_owned());
    assert_eq!(emit, None);
    assert_eq!(agg.effective_volume(), Some(facts(400000, false)));
}

#[test]
fn object_removal_drops_subscription_and_facts() {
    let mut agg = VolumeAggregator::new();
    agg.set_volume_for_node("sink-a".to_owned(), Some(400000), Some(false));
    agg.set_default_sink("sink-a".to_owned());
    agg.track_subscription(7, Subscription::Node { name: "sink-a".to_owned() });
    let emit = agg.on_object_removed(7);
    assert_eq!(emit, Some(None));
    assert_eq!(agg.get_node_facts(&"sink-a".to_owned()), None);
    // The registration is gone too: a second removal is a no-op.
    let emit = agg.on_object_removed(7);
    assert_eq!(emit, None);
}

#[test]
fn metadata_object_removal_leaves_facts() {
    let mut agg = VolumeAggregator::new();
    agg.set_volume_for_node("sink-a".to_owned(), Some(400000), Some(false));
    agg.set_default_sink("sink-a".to_owned());
    agg.track_subscription(3, Subscription::Metadata);
    let emit = agg.on_object_removed(3);
    assert_eq!(emit, None);
    assert_eq!(agg.effective_volume(), Some(facts(400000, false)));
}

#[test]
fn untrack_returns_the_subscription() {
    let mut agg = VolumeAggregator::new();
    agg.track_subscription(11, Subscription::Node { name: "sink-a".to_owned() });
    let sub = agg.untrack(11);
    assert!(matches!(sub, Some(Subscription::Node { name }) if name == "sink-a"));
    assert!(agg.untrack(11).is_none());
}

#[test]
fn switching_default_sink_emits_other_facts() {
    let mut agg = VolumeAggregator::new();
    agg.set_volume_for_node("sink-a".to_owned(), Some(400000), Some(false));
    agg.set_volume_for_node("sink-b".to_owned(), Some(900000), Some(true));
    agg.set_default_sink("sink-a".to_owned());
    let emit = agg.set_default_sink("sink-b".to_owned());
    assert_eq!(emit, Some(Some(facts(900000, true))));
}
