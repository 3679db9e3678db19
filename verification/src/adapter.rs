//! Translates the audio event bus's notifications into aggregator calls:
//! deciding which announced objects to track, and extracting the new
//! default sink's name from a metadata property update.

use vstd::prelude::*;
use crate::aggregator::{NodeFacts, VolumeAggregator, lookup, emission};

verus! {

/// The type tag of one object announced by the audio event bus.
#[derive(Clone, Copy, PartialEq, Eq, Structural, Debug)]
pub enum ObjectKind {
    /// A metadata registry object.
    Metadata,
    /// An audio node object.
    Node,
    /// Anything else; never tracked.
    Other,
}

/// What the adapter decides about one announced object.
#[derive(Debug)]
pub enum TrackAction {
    /// The single metadata registry named `default`: watch its properties
    /// for default-sink changes.
    WatchMetadata,
    /// A qualifying volume-bearing node: watch its parameters, aggregating
    /// them under this logical name.
    WatchNode {
        /// The node's logical name, from its `node.name` property.
        name: String,
    },
    /// The object carries no volume information; leave it alone.
    Ignore,
}

/// The value stored under the first occurrence of a key in an associative
/// property set, if any.
pub open spec fn prop_value(props: Seq<(String, String)>, key: Seq<char>) -> Option<Seq<char>>
    decreases props.len(),
{
    if props.len() == 0 {
        None
    } else if props[0].0@ == key {
        Some(props[0].1@)
    } else {
        prop_value(props.drop_first(), key)
    }
}

/// Law: a key that does not match the first entry looks up in the rest.
proof fn lemma_prop_value_step(props: Seq<(String, String)>, i: int, key: Seq<char>)
    requires
        0 <= i < props.len(),
        props[i].0@ != key,
    ensures
        prop_value(props.skip(i), key) == prop_value(props.skip(i + 1), key),
{
    assert(props.skip(i)[0] == props[i]);
    assert(props.skip(i).drop_first() =~= props.skip(i + 1));
}

/// Finds the value stored under a property key.
fn find_prop(props: &Vec<(String, String)>, key: &String) -> (r: Option<String>)
    ensures
        match r {
            Some(v) => prop_value(props@, key@) == Some(v@),
            None => prop_value(props@, key@) is None,
        },
{
    let n = props.len();
    let mut i: usize = 0;
    proof {
        assert(props@.skip(0) =~= props@);
    }
    while i < n
        invariant
            n == props@.len(),
            i <= n,
            prop_value(props@.skip(i as int), key@) == prop_value(props@, key@),
        decreases n - i,
    {
        if props[i].0 == *key {
            proof {
                assert(props@.skip(i as int)[0] == props@[i as int]);
            }
            return Some(props[i].1.clone());
        }
        proof {
            lemma_prop_value_step(props@, i as int, key@);
        }
        i = i + 1;
    }
    proof {
        assert(props@.skip(n as int) =~= Seq::<(String, String)>::empty());
    }
    None
}

/// Decides whether one announced object is worth tracking. A metadata
/// object qualifies when its `metadata.name` property is `default`; a node
/// qualifies as volume-bearing only when it exposes a `device.id` property,
/// and its logical name is then its `node.name` property.
pub fn classify_global(kind: ObjectKind, props: &Vec<(String, String)>) -> (r: TrackAction)
    ensures
        match r {
            TrackAction::WatchMetadata => {
                &&& kind == ObjectKind::Metadata
                &&& prop_value(props@, "metadata.name"@) == Some("default"@)
            },
            TrackAction::WatchNode { name } => {
                &&& kind == ObjectKind::Node
                &&& prop_value(props@, "device.id"@) is Some
                &&& prop_value(props@, "node.name"@) == Some(name@)
            },
            TrackAction::Ignore => {
                &&& kind == ObjectKind::Metadata ==> prop_value(props@, "metadata.name"@)
                    != Some("default"@)
                &&& kind == ObjectKind::Node ==> (prop_value(props@, "device.id"@) is None
                    || prop_value(props@, "node.name"@) is None)
            },
        },
{
    match kind {
        ObjectKind::Metadata => {
            let metadata_key = "metadata.name".to_owned();
            match find_prop(props, &metadata_key) {
                Some(value) => {
                    let default_name = "default".to_owned();
                    if value == default_name {
                        TrackAction::WatchMetadata
                    } else {
                        TrackAction::Ignore
                    }
                },
                None => TrackAction::Ignore,
            }
        },
        ObjectKind::Node => {
            let device_key = "device.id".to_owned();
            match find_prop(props, &device_key) {
                Some(_) => {
                    let name_key = "node.name".to_owned();
                    match find_prop(props, &name_key) {
                        Some(name) => TrackAction::WatchNode { name },
                        None => TrackAction::Ignore,
                    }
                },
                None => TrackAction::Ignore,
            }
        },
        ObjectKind::Other => TrackAction::Ignore,
    }
}

/// One entry of a node's parameter-change property set, as far as this
/// library reads it: the per-channel volume array (each channel a linear
/// fraction in parts of [`crate::codec::VOLUME_SCALE`]), the mute flag, or
/// anything else.
#[derive(Debug)]
pub enum ParamProperty {
    /// The channel-volume array; aggregation takes its first element.
    ChannelVolumes(Vec<u32>),
    /// The mute flag.
    Mute(bool),
    /// A property this library does not read.
    Other,
}

/// What a parameter-change property set yields for aggregation: the first
/// element of the channel-volume array and the mute flag, each from the
/// last well-shaped property carrying it, and absent when no property
/// carries it -- an empty volume array carries nothing.
pub open spec fn extracted_params(props: Seq<ParamProperty>) -> (Option<u32>, Option<bool>)
    decreases props.len(),
{
    if props.len() == 0 {
        (None, None)
    } else {
        let rest = extracted_params(props.drop_last());
        match props.last() {
            ParamProperty::ChannelVolumes(levels) => if levels@.len() > 0 {
                (Some(levels@[0]), rest.1)
            } else {
                rest
            },
            ParamProperty::Mute(m) => (rest.0, Some(m)),
            ParamProperty::Other => rest,
        }
    }
}

/// Extracts the volume fraction and mute flag from a node's
/// parameter-change property set. An absent half leaves the other half
/// usable, per the aggregator's field-by-field merge.
pub fn extract_node_params(props: &Vec<ParamProperty>) -> (r: (Option<u32>, Option<bool>))
    ensures
        r == extracted_params(props@),
{
    let n = props.len();
    let mut volume: Option<u32> = None;
    let mut muted: Option<bool> = None;
    let mut i: usize = 0;
    proof {
        assert(props@.subrange(0, 0) =~= Seq::<ParamProperty>::empty());
    }
    while i < n
        invariant
            n == props@.len(),
            i <= n,
            (volume, muted) == extracted_params(props@.subrange(0, i as int)),
        decreases n - i,
    {
        proof {
            assert(props@.subrange(0, i + 1).drop_last() =~= props@.subrange(0, i as int));
            assert(props@.subrange(0, i + 1).last() == props@[i as int]);
        }
        match &props[i] {
            ParamProperty::ChannelVolumes(levels) => {
                if levels.len() > 0 {
                    volume = Some(levels[0]);
                }
            },
            ParamProperty::Mute(m) => {
                muted = Some(*m);
            },
            ParamProperty::Other => {},
        }
        i = i + 1;
    }
    proof {
        assert(props@.subrange(0, n as int) =~= props@);
    }
    (volume, muted)
}

/// The node name carried by a default-sink metadata payload: the payload is
/// a textual JSON document, and the name is its object's string-valued
/// `name` member. Nothing for a document without one, or one that does not
/// parse.
pub uninterp spec fn default_sink_name(payload: Seq<char>) -> Option<Seq<char>>;

/// Relies on `json::parse` to decode the textual payload, and on
/// `json::JsonValue`'s `Index<&str>` and `as_str` to pick the `name`
/// member: all three are pure functions of the payload text, so together
/// they realise `default_sink_name`. Any malformed shape becomes `None`.
#[verifier::external_body]
fn extract_sink_name(payload: &str) -> (r: Option<String>)
    ensures
        match r {
            Some(s) => default_sink_name(payload@) == Some(s@),
            None => default_sink_name(payload@) is None,
        },
{
    match json::parse(payload) {
        Ok(doc) => match doc["name"].as_str() {
            Some(name) => Some(name.to_string()),
            None => None,
        },
        Err(_) => None,
    }
}

/// Whether a metadata property notification announces a new default sink:
/// only the JSON-typed `default.audio.sink` key does, and only with a
/// payload attached.
pub open spec fn is_default_sink_update(
    key: Option<String>,
    type_tag: Option<String>,
    value: Option<String>,
) -> bool {
    &&& key matches Some(k) && k@ == "default.audio.sink"@
    &&& type_tag matches Some(t) && t@ == "Spa:String:JSON"@
    &&& value is Some
}

/// Handles one metadata property-change notification. A notification for
/// any other key or type, or one whose payload does not carry a sink name,
/// is dropped and leaves the aggregator untouched; otherwise the named
/// sink becomes the default and the emission is handed back.
pub fn handle_metadata_property(
    agg: &mut VolumeAggregator,
    key: Option<String>,
    type_tag: Option<String>,
    value: Option<String>,
) -> (emit: Option<Option<NodeFacts>>)
    requires
        old(agg).wf(),
    ensures
        final(agg).wf(),
        final(agg).nodes@ == old(agg).nodes@,
        final(agg).subs@ == old(agg).subs@,
        !is_default_sink_update(key, type_tag, value) ==> *final(agg) == *old(agg) && emit
            is None,
        is_default_sink_update(key, type_tag, value) ==> {
            let payload = value->0@;
            match default_sink_name(payload) {
                Some(n) => {
                    &&& final(agg).default_sink matches Some(s) && s@ == n
                    &&& final(agg).emitted == lookup(old(agg).nodes@, n)
                    &&& emit == emission(old(agg).emitted, lookup(old(agg).nodes@, n))
                },
                None => *final(agg) == *old(agg) && emit is None,
            }
        },
{
    let relevant = match (&key, &type_tag) {
        (Some(k), Some(t)) => {
            let sink_key = "default.audio.sink".to_owned();
            let json_type = "Spa:String:JSON".to_owned();
            *k == sink_key && *t == json_type
        },
        _ => false,
    };
    if !relevant {
        return None;
    }
    match value {
        Some(payload) => match extract_sink_name(payload.as_str()) {
            Some(name) => agg.set_default_sink(name),
            None => None,
        },
        None => None,
    }
}

} // verus!
