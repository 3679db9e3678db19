//! The volume-state aggregator: it owns per-node volume and mute facts, the
//! identity of the current default output node, and the bookkeeping for
//! external event-source registrations, and it emits the effective volume
//! only when that value actually changes.

use vstd::prelude::*;
use vstd::pervasive::VecAdditionalExecFns;
use crate::codec::VOLUME_SCALE;

verus! {

/// The volume facts known for one audio node. The volume is a linear
/// fraction in parts of [`VOLUME_SCALE`].
#[derive(Clone, Copy, PartialEq, Eq, Structural, Debug)]
pub struct NodeFacts {
    /// Linear volume fraction, `0 ..= VOLUME_SCALE`.
    pub volume: u32,
    /// Whether the node is muted.
    pub muted: bool,
}

/// Whether a node's facts lie in range.
pub open spec fn facts_valid(f: NodeFacts) -> bool {
    f.volume <= VOLUME_SCALE
}

/// One tracked registration with the external event bus, keyed by the
/// opaque object id the bus assigned; each variant carries only what its
/// cleanup path needs.
#[derive(Debug)]
pub enum Subscription {
    /// A watch on the default-sink metadata object.
    Metadata,
    /// A watch on a volume-bearing node; removal of the object must also
    /// drop the facts stored under this logical node name.
    Node {
        /// The node's logical name for aggregation purposes.
        name: String,
    },
}

/// No two entries carry the same node name.
pub open spec fn nodes_unique(nodes: Seq<(String, NodeFacts)>) -> bool {
    forall|i: int, j: int|
        0 <= i < j < nodes.len() ==> (#[trigger] nodes[i]).0@ != (#[trigger] nodes[j]).0@
}

/// Whether some entry carries this node name.
pub open spec fn has_node(nodes: Seq<(String, NodeFacts)>, name: Seq<char>) -> bool {
    exists|i: int| 0 <= i < nodes.len() && (#[trigger] nodes[i]).0@ == name
}

/// The index of the entry carrying this node name.
pub open spec fn node_index_of(nodes: Seq<(String, NodeFacts)>, name: Seq<char>) -> int {
    choose|i: int| 0 <= i < nodes.len() && (#[trigger] nodes[i]).0@ == name
}

/// The facts stored under a node name, if any.
pub open spec fn lookup(nodes: Seq<(String, NodeFacts)>, name: Seq<char>) -> Option<NodeFacts> {
    if has_node(nodes, name) {
        Some(nodes[node_index_of(nodes, name)].1)
    } else {
        None
    }
}

/// No two entries carry the same object id.
pub open spec fn subs_unique(subs: Seq<(u32, Subscription)>) -> bool {
    forall|i: int, j: int|
        0 <= i < j < subs.len() ==> (#[trigger] subs[i]).0 != (#[trigger] subs[j]).0
}

/// Whether some entry carries this object id.
pub open spec fn has_sub(subs: Seq<(u32, Subscription)>, id: u32) -> bool {
    exists|i: int| 0 <= i < subs.len() && (#[trigger] subs[i]).0 == id
}

/// The index of the entry carrying this object id.
pub open spec fn sub_index_of(subs: Seq<(u32, Subscription)>, id: u32) -> int {
    choose|i: int| 0 <= i < subs.len() && (#[trigger] subs[i]).0 == id
}

/// The subscription stored under an object id, if any.
pub open spec fn sub_lookup(subs: Seq<(u32, Subscription)>, id: u32) -> Option<Subscription> {
    if has_sub(subs, id) {
        Some(subs[sub_index_of(subs, id)].1)
    } else {
        None
    }
}

/// What one recomputation hands to the downstream listener: `Some(value)`
/// exactly when the newly computed effective volume differs from the value
/// at the previous emission, and nothing otherwise.
pub open spec fn emission(
    previous: Option<NodeFacts>,
    computed: Option<NodeFacts>,
) -> Option<Option<NodeFacts>> {
    if computed != previous {
        Some(computed)
    } else {
        None
    }
}

/// Law: looking up the name stored at a given index finds exactly that
/// entry's facts, provided names are unique.
pub proof fn lemma_lookup_at(nodes: Seq<(String, NodeFacts)>, i: int)
    requires
        nodes_unique(nodes),
        0 <= i < nodes.len(),
    ensures
        lookup(nodes, nodes[i].0@) == Some(nodes[i].1),
{
    assert(has_node(nodes, nodes[i].0@));
    let k = node_index_of(nodes, nodes[i].0@);
    assert(0 <= k < nodes.len() && nodes[k].0@ == nodes[i].0@);
    if k != i {
        assert(false);
    }
}

/// Law: a name carried by no entry looks up to nothing.
pub proof fn lemma_lookup_none(nodes: Seq<(String, NodeFacts)>, name: Seq<char>)
    requires
        forall|i: int| 0 <= i < nodes.len() ==> (#[trigger] nodes[i]).0@ != name,
    ensures
        lookup(nodes, name) is None,
{
}

/// Law: replacing the entry at one index with an entry of the same name
/// keeps names unique.
proof fn lemma_unique_update(nodes: Seq<(String, NodeFacts)>, i: int, e: (String, NodeFacts))
    requires
        nodes_unique(nodes),
        0 <= i < nodes.len(),
        e.0@ == nodes[i].0@,
    ensures
        nodes_unique(nodes.update(i, e)),
{
    let upd = nodes.update(i, e);
    assert forall|a: int, b: int| 0 <= a < b < upd.len() implies (#[trigger] upd[a]).0@
        != (#[trigger] upd[b]).0@ by {
        assert(upd[a].0@ == nodes[a].0@);
        assert(upd[b].0@ == nodes[b].0@);
    }
}

/// Law: appending an entry with a fresh name keeps names unique.
proof fn lemma_unique_push(nodes: Seq<(String, NodeFacts)>, e: (String, NodeFacts))
    requires
        nodes_unique(nodes),
        !has_node(nodes, e.0@),
    ensures
        nodes_unique(nodes.push(e)),
{
    let ext = nodes.push(e);
    assert forall|a: int, b: int| 0 <= a < b < ext.len() implies (#[trigger] ext[a]).0@
        != (#[trigger] ext[b]).0@ by {
        if b < nodes.len() {
            assert(ext[a] == nodes[a]);
            assert(ext[b] == nodes[b]);
        } else {
            assert(ext[a] == nodes[a]);
            assert(ext[b] == e);
        }
    }
}

/// Law: replacing the entry at one index with an entry of the same name
/// leaves every other name's lookup unchanged.
proof fn lemma_lookup_update(
    nodes: Seq<(String, NodeFacts)>,
    i: int,
    e: (String, NodeFacts),
    n: Seq<char>,
)
    requires
        nodes_unique(nodes),
        0 <= i < nodes.len(),
        e.0@ == nodes[i].0@,
        n != nodes[i].0@,
    ensures
        lookup(nodes.update(i, e), n) == lookup(nodes, n),
{
    let upd = nodes.update(i, e);
    lemma_unique_update(nodes, i, e);
    assert(forall|j: int| 0 <= j < nodes.len() ==> (#[trigger] upd[j]).0@ == nodes[j].0@);
    if has_node(upd, n) {
        let k = node_index_of(upd, n);
        assert(0 <= k < upd.len() && upd[k].0@ == n);
        assert(nodes[k].0@ == n);
        lemma_lookup_at(nodes, k);
        assert(k != i);
        assert(upd[k] == nodes[k]);
    } else {
        assert forall|j: int| 0 <= j < nodes.len() implies (#[trigger] nodes[j]).0@ != n by {
            assert(upd[j].0@ == nodes[j].0@);
        }
    }
}

/// Law: appending an entry with a fresh name leaves every other name's
/// lookup unchanged.
proof fn lemma_lookup_push(nodes: Seq<(String, NodeFacts)>, e: (String, NodeFacts), n: Seq<char>)
    requires
        nodes_unique(nodes),
        !has_node(nodes, e.0@),
        n != e.0@,
    ensures
        lookup(nodes.push(e), n) == lookup(nodes, n),
{
    let ext = nodes.push(e);
    lemma_unique_push(nodes, e);
    assert(forall|j: int| 0 <= j < nodes.len() ==> (#[trigger] ext[j]) == nodes[j]);
    assert(ext[nodes.len() as int] == e);
    if has_node(ext, n) {
        let k = node_index_of(ext, n);
        assert(0 <= k < ext.len() && ext[k].0@ == n);
        assert(k != nodes.len());
        lemma_lookup_at(nodes, k);
        lemma_lookup_at(ext, k);
    } else {
        assert forall|j: int| 0 <= j < nodes.len() implies (#[trigger] nodes[j]).0@ != n by {
            assert(ext[j] == nodes[j]);
        }
    }
}

/// Law: removing the entry at one index erases its name from the lookup and
/// leaves every other name's lookup unchanged.
proof fn lemma_lookup_remove(nodes: Seq<(String, NodeFacts)>, i: int, n: Seq<char>)
    requires
        nodes_unique(nodes),
        0 <= i < nodes.len(),
    ensures
        nodes_unique(nodes.remove(i)),
        lookup(nodes.remove(i), nodes[i].0@) is None,
        n != nodes[i].0@ ==> lookup(nodes.remove(i), n) == lookup(nodes, n),
{
    let rem = nodes.remove(i);
    assert(forall|j: int| 0 <= j < i ==> (#[trigger] rem[j]) == nodes[j]);
    assert(forall|j: int| i <= j < rem.len() ==> (#[trigger] rem[j]) == nodes[j + 1]);
    assert(nodes_unique(rem)) by {
        assert forall|a: int, b: int| 0 <= a < b < rem.len() implies (#[trigger] rem[a]).0@
            != (#[trigger] rem[b]).0@ by {
            let a0 = if a < i { a } else { a + 1 };
            let b0 = if b < i { b } else { b + 1 };
            assert(rem[a] == nodes[a0]);
            assert(rem[b] == nodes[b0]);
        }
    }
    assert forall|j: int| 0 <= j < rem.len() implies (#[trigger] rem[j]).0@ != nodes[i].0@ by {
        let j0 = if j < i { j } else { j + 1 };
        assert(rem[j] == nodes[j0]);
    }
    lemma_lookup_none(rem, nodes[i].0@);
    if n != nodes[i].0@ {
        if has_node(rem, n) {
            let k = node_index_of(rem, n);
            let k0 = if k < i { k } else { k + 1 };
            assert(rem[k] == nodes[k0]);
            lemma_lookup_at(nodes, k0);
            lemma_lookup_at(rem, k);
        } else {
            assert forall|j: int| 0 <= j < nodes.len() implies (#[trigger] nodes[j]).0@ != n by {
                if j != i {
                    let jr = if j < i { j } else { j - 1 };
                    assert(rem[jr] == nodes[j]);
                }
            }
        }
    }
}

/// Law: looking up the object id stored at a given index finds exactly that
/// entry's subscription, provided ids are unique.
proof fn lemma_sub_lookup_at(subs: Seq<(u32, Subscription)>, i: int)
    requires
        subs_unique(subs),
        0 <= i < subs.len(),
    ensures
        sub_lookup(subs, subs[i].0) == Some(subs[i].1),
{
    assert(has_sub(subs, subs[i].0));
    let k = sub_index_of(subs, subs[i].0);
    assert(0 <= k < subs.len() && subs[k].0 == subs[i].0);
    if k != i {
        assert(false);
    }
}

/// Law: an object id carried by no entry looks up to nothing.
proof fn lemma_sub_lookup_none(subs: Seq<(u32, Subscription)>, id: u32)
    requires
        forall|i: int| 0 <= i < subs.len() ==> (#[trigger] subs[i]).0 != id,
    ensures
        sub_lookup(subs, id) is None,
{
}

/// Law: replacing the entry at one index with an entry of the same id keeps
/// ids unique and leaves every other id's lookup unchanged.
proof fn lemma_sub_lookup_update(
    subs: Seq<(u32, Subscription)>,
    i: int,
    e: (u32, Subscription),
    id: u32,
)
    requires
        subs_unique(subs),
        0 <= i < subs.len(),
        e.0 == subs[i].0,
        id != subs[i].0,
    ensures
        sub_lookup(subs.update(i, e), id) == sub_lookup(subs, id),
{
    let upd = subs.update(i, e);
    assert(forall|j: int| 0 <= j < subs.len() ==> (#[trigger] upd[j]).0 == subs[j].0);
    if has_sub(upd, id) {
        let k = sub_index_of(upd, id);
        assert(0 <= k < upd.len() && upd[k].0 == id);
        lemma_sub_lookup_at(subs, k);
        assert(k != i);
        assert(upd[k] == subs[k]);
    } else {
        assert forall|j: int| 0 <= j < subs.len() implies (#[trigger] subs[j]).0 != id by {
            assert(upd[j].0 == subs[j].0);
        }
    }
}

/// Law: ids stay unique when an entry is replaced by one of the same id.
proof fn lemma_sub_unique_update(subs: Seq<(u32, Subscription)>, i: int, e: (u32, Subscription))
    requires
        subs_unique(subs),
        0 <= i < subs.len(),
        e.0 == subs[i].0,
    ensures
        subs_unique(subs.update(i, e)),
{
    let upd = subs.update(i, e);
    assert forall|a: int, b: int| 0 <= a < b < upd.len() implies (#[trigger] upd[a]).0
        != (#[trigger] upd[b]).0 by {
        assert(upd[a].0 == subs[a].0);
        assert(upd[b].0 == subs[b].0);
    }
}

/// Law: appending an entry with a fresh id keeps ids unique and leaves
/// every other id's lookup unchanged.
proof fn lemma_sub_lookup_push(subs: Seq<(u32, Subscription)>, e: (u32, Subscription), id: u32)
    requires
        subs_unique(subs),
        !has_sub(subs, e.0),
        id != e.0,
    ensures
        subs_unique(subs.push(e)),
        sub_lookup(subs.push(e), id) == sub_lookup(subs, id),
{
    let ext = subs.push(e);
    assert(forall|j: int| 0 <= j < subs.len() ==> (#[trigger] ext[j]) == subs[j]);
    assert(ext[subs.len() as int] == e);
    assert forall|a: int, b: int| 0 <= a < b < ext.len() implies (#[trigger] ext[a]).0
        != (#[trigger] ext[b]).0 by {
        assert(ext[a] == subs[a]);
        if b < subs.len() {
            assert(ext[b] == subs[b]);
        }
    }
    if has_sub(ext, id) {
        let k = sub_index_of(ext, id);
        assert(0 <= k < ext.len() && ext[k].0 == id);
        assert(k != subs.len());
        lemma_sub_lookup_at(subs, k);
        lemma_sub_lookup_at(ext, k);
    } else {
        assert forall|j: int| 0 <= j < subs.len() implies (#[trigger] subs[j]).0 != id by {
            assert(ext[j] == subs[j]);
        }
    }
}

/// Law: removing the entry at one index erases its id from the lookup and
/// leaves every other id's lookup unchanged.
proof fn lemma_sub_lookup_remove(subs: Seq<(u32, Subscription)>, i: int, id: u32)
    requires
        subs_unique(subs),
        0 <= i < subs.len(),
    ensures
        subs_unique(subs.remove(i)),
        sub_lookup(subs.remove(i), subs[i].0) is None,
        id != subs[i].0 ==> sub_lookup(subs.remove(i), id) == sub_lookup(subs, id),
{
    let rem = subs.remove(i);
    assert(forall|j: int| 0 <= j < i ==> (#[trigger] rem[j]) == subs[j]);
    assert(forall|j: int| i <= j < rem.len() ==> (#[trigger] rem[j]) == subs[j + 1]);
    assert(subs_unique(rem)) by {
        assert forall|a: int, b: int| 0 <= a < b < rem.len() implies (#[trigger] rem[a]).0
            != (#[trigger] rem[b]).0 by {
            let a0 = if a < i { a } else { a + 1 };
            let b0 = if b < i { b } else { b + 1 };
            assert(rem[a] == subs[a0]);
            assert(rem[b] == subs[b0]);
        }
    }
    assert forall|j: int| 0 <= j < rem.len() implies (#[trigger] rem[j]).0 != subs[i].0 by {
        let j0 = if j < i { j } else { j + 1 };
        assert(rem[j] == subs[j0]);
    }
    lemma_sub_lookup_none(rem, subs[i].0);
    if id != subs[i].0 {
        if has_sub(rem, id) {
            let k = sub_index_of(rem, id);
            let k0 = if k < i { k } else { k + 1 };
            assert(rem[k] == subs[k0]);
            lemma_sub_lookup_at(subs, k0);
            lemma_sub_lookup_at(rem, k);
        } else {
            assert forall|j: int| 0 <= j < subs.len() implies (#[trigger] subs[j]).0 != id by {
                if j != i {
                    let jr = if j < i { j } else { j - 1 };
                    assert(rem[jr] == subs[j]);
                }
            }
        }
    }
}

/// The aggregator's whole state: the tracked node facts, the name of the
/// current default output node, the value handed out at the last emission,
/// and the live event-source registrations.
pub struct VolumeAggregator {
    /// Facts per node name; names are unique.
    pub nodes: Vec<(String, NodeFacts)>,
    /// The name of the current default output node, once one was reported.
    pub default_sink: Option<String>,
    /// The effective volume at the last emission.
    pub emitted: Option<NodeFacts>,
    /// Live registrations, keyed by the bus's object id; ids are unique.
    pub subs: Vec<(u32, Subscription)>,
}

impl VolumeAggregator {
    /// The effective volume as computed from the current state: the facts
    /// of the default sink, or nothing while no default sink with known
    /// facts exists.
    pub open spec fn effective(self) -> Option<NodeFacts> {
        match self.default_sink {
            Some(s) => lookup(self.nodes@, s@),
            None => None,
        }
    }

    /// Well-formedness: unique node names and object ids, facts in range,
    /// and the stored emission equal to the computed effective volume --
    /// so the stored value is `None` exactly when the default sink is
    /// unset or its node is unknown.
    pub open spec fn wf(self) -> bool {
        &&& nodes_unique(self.nodes@)
        &&& subs_unique(self.subs@)
        &&& (forall|i: int| 0 <= i < self.nodes@.len() ==> facts_valid((#[trigger] self.nodes@[i]).1))
        &&& self.emitted == self.effective()
    }

    /// A fresh aggregator: no facts, no default sink, nothing emitted yet.
    pub fn new() -> (r: Self)
        ensures
            r.wf(),
            r.nodes@.len() == 0,
            r.default_sink is None,
            r.emitted is None,
            r.subs@.len() == 0,
    {
        VolumeAggregator {
            nodes: Vec::new(),
            default_sink: None,
            emitted: None,
            subs: Vec::new(),
        }
    }

    /// Finds the index of the entry carrying this node name, if any.
    fn find_node(&self, name: &String) -> (r: Option<usize>)
        requires
            nodes_unique(self.nodes@),
        ensures
            match r {
                Some(i) => {
                    &&& i < self.nodes@.len()
                    &&& self.nodes@[i as int].0@ == name@
                    &&& lookup(self.nodes@, name@) == Some(self.nodes@[i as int].1)
                },
                None => lookup(self.nodes@, name@) is None,
            },
    {
        let n = self.nodes.len();
        let mut i: usize = 0;
        while i < n
            invariant
                n == self.nodes@.len(),
                i <= n,
                nodes_unique(self.nodes@),
                forall|j: int| 0 <= j < i ==> (#[trigger] self.nodes@[j]).0@ != name@,
            decreases n - i,
        {
            if self.nodes[i].0 == *name {
                proof {
                    lemma_lookup_at(self.nodes@, i as int);
                }
                return Some(i);
            }
            i = i + 1;
        }
        proof {
            lemma_lookup_none(self.nodes@, name@);
        }
        None
    }

    /// Recomputes the effective volume and reports what must be handed to
    /// the downstream listener: the new value exactly when it differs from
    /// the value at the previous emission.
    fn recompute(&mut self) -> (emit: Option<Option<NodeFacts>>)
        requires
            nodes_unique(old(self).nodes@),
        ensures
            final(self).nodes@ == old(self).nodes@,
            final(self).default_sink == old(self).default_sink,
            final(self).subs@ == old(self).subs@,
            final(self).emitted == old(self).effective(),
            emit == emission(old(self).emitted, old(self).effective()),
    {
        let candidate: Option<NodeFacts> = match &self.default_sink {
            Some(sink) => match self.find_node(sink) {
                Some(i) => Some(self.nodes[i].1),
                None => None,
            },
            None => None,
        };
        let changed = match (candidate, self.emitted) {
            (Some(a), Some(b)) => !(a == b),
            (None, None) => false,
            _ => true,
        };
        if changed {
            self.emitted = candidate;
            Some(candidate)
        } else {
            None
        }
    }

    /// Records the new default output node; a repeated identical name is a
    /// no-op, any other name triggers a recomputation. What comes back is
    /// the emission: the newly effective volume when it differs from the
    /// value at the previous emission, nothing otherwise.
    pub fn set_default_sink(&mut self, name: String) -> (emit: Option<Option<NodeFacts>>)
        requires
            old(self).wf(),
        ensures
            final(self).wf(),
            final(self).nodes@ == old(self).nodes@,
            final(self).subs@ == old(self).subs@,
            final(self).default_sink matches Some(s) && s@ == name@,
            final(self).emitted == lookup(old(self).nodes@, name@),
            emit == emission(old(self).emitted, lookup(old(self).nodes@, name@)),
    {
        let unchanged = match &self.default_sink {
            Some(previous) => *previous == name,
            None => false,
        };
        if unchanged {
            return None;
        }
        self.default_sink = Some(name);
        self.recompute()
    }

    /// Upserts a node's facts field by field and recomputes when the node
    /// is the current default sink. A partial update merges into existing
    /// facts and never erases the field it does not carry; for an unknown
    /// node, facts are created only once both fields are reported.
    pub fn set_volume_for_node(
        &mut self,
        name: String,
        volume: Option<u32>,
        muted: Option<bool>,
    ) -> (emit: Option<Option<NodeFacts>>)
        requires
            old(self).wf(),
            match volume {
                Some(v) => v <= VOLUME_SCALE,
                None => true,
            },
        ensures
            final(self).wf(),
            final(self).default_sink == old(self).default_sink,
            final(self).subs@ == old(self).subs@,
            lookup(final(self).nodes@, name@) == merged(
                lookup(old(self).nodes@, name@),
                volume,
                muted,
            ),
            forall|n: Seq<char>|
                n != name@ ==> lookup(final(self).nodes@, n) == lookup(old(self).nodes@, n),
            emit == emission(old(self).emitted, final(self).effective()),
    {
        let is_default = match &self.default_sink {
            Some(d) => *d == name,
            None => false,
        };
        match self.find_node(&name) {
            Some(i) => {
                let previous = self.nodes[i].1;
                let facts = NodeFacts {
                    volume: match volume {
                        Some(v) => v,
                        None => previous.volume,
                    },
                    muted: match muted {
                        Some(m) => m,
                        None => previous.muted,
                    },
                };
                proof {
                    assert forall|n: Seq<char>| n != name@ implies lookup(
                        old(self).nodes@.update(i as int, (name, facts)),
                        n,
                    ) == lookup(old(self).nodes@, n) by {
                        lemma_lookup_update(old(self).nodes@, i as int, (name, facts), n);
                    }
                    lemma_unique_update(old(self).nodes@, i as int, (name, facts));
                    lemma_lookup_at(old(self).nodes@.update(i as int, (name, facts)), i as int);
                }
                self.nodes.set(i, (name, facts));
            },
            None => {
                match (volume, muted) {
                    (Some(v), Some(m)) => {
                        let facts = NodeFacts { volume: v, muted: m };
                        proof {
                            assert(!has_node(old(self).nodes@, name@));
                            assert forall|n: Seq<char>| n != name@ implies lookup(
                                old(self).nodes@.push((name, facts)),
                                n,
                            ) == lookup(old(self).nodes@, n) by {
                                lemma_lookup_push(old(self).nodes@, (name, facts), n);
                            }
                            lemma_unique_push(old(self).nodes@, (name, facts));
                            lemma_lookup_at(
                                old(self).nodes@.push((name, facts)),
                                old(self).nodes@.len() as int,
                            );
                        }
                        self.nodes.push((name, facts));
                    },
                    _ => {},
                }
            },
        }
        if is_default {
            self.recompute()
        } else {
            None
        }
    }

    /// Drops a node's facts; when the node was the current default sink,
    /// recomputes, so the effective volume becomes unset until a node with
    /// that name reappears with known facts. For any other node nothing
    /// visible happens beyond the dropped facts.
    pub fn remove_node(&mut self, name: &String) -> (emit: Option<Option<NodeFacts>>)
        requires
            old(self).wf(),
        ensures
            final(self).wf(),
            final(self).default_sink == old(self).default_sink,
            final(self).subs@ == old(self).subs@,
            lookup(final(self).nodes@, name@) is None,
            forall|n: Seq<char>|
                n != name@ ==> lookup(final(self).nodes@, n) == lookup(old(self).nodes@, n),
            emit == emission(old(self).emitted, final(self).effective()),
    {
        match self.find_node(name) {
            Some(i) => {
                proof {
                    lemma_lookup_remove(old(self).nodes@, i as int, old(self).nodes@[i as int].0@);
                    assert forall|n: Seq<char>| n != name@ implies lookup(
                        old(self).nodes@.remove(i as int),
                        n,
                    ) == lookup(old(self).nodes@, n) by {
                        lemma_lookup_remove(old(self).nodes@, i as int, n);
                    }
                }
                self.nodes.remove(i);
            },
            None => {},
        }
        let is_default = match &self.default_sink {
            Some(d) => *d == *name,
            None => false,
        };
        if is_default {
            self.recompute()
        } else {
            None
        }
    }

    /// The facts currently known for a node, if any.
    pub fn get_node_facts(&self, name: &String) -> (r: Option<NodeFacts>)
        requires
            self.wf(),
        ensures
            r == lookup(self.nodes@, name@),
    {
        match self.find_node(name) {
            Some(i) => Some(self.nodes[i].1),
            None => None,
        }
    }

    /// The effective volume as of the last recomputation: the default
    /// sink's facts, or nothing while no default sink with known facts
    /// exists.
    pub fn effective_volume(&self) -> (r: Option<NodeFacts>)
        requires
            self.wf(),
        ensures
            r == self.effective(),
    {
        self.emitted
    }

    /// Finds the index of the entry carrying this object id, if any.
    fn find_sub(&self, id: u32) -> (r: Option<usize>)
        requires
            subs_unique(self.subs@),
        ensures
            match r {
                Some(i) => {
                    &&& i < self.subs@.len()
                    &&& self.subs@[i as int].0 == id
                    &&& sub_lookup(self.subs@, id) == Some(self.subs@[i as int].1)
                },
                None => sub_lookup(self.subs@, id) is None,
            },
    {
        let n = self.subs.len();
        let mut i: usize = 0;
        while i < n
            invariant
                n == self.subs@.len(),
                i <= n,
                subs_unique(self.subs@),
                forall|j: int| 0 <= j < i ==> (#[trigger] self.subs@[j]).0 != id,
            decreases n - i,
        {
            if self.subs[i].0 == id {
                proof {
                    lemma_sub_lookup_at(self.subs@, i as int);
                }
                return Some(i);
            }
            i = i + 1;
        }
        proof {
            lemma_sub_lookup_none(self.subs@, id);
        }
        None
    }

    /// Starts the lifecycle bookkeeping for one external event-source
    /// registration, keyed by the bus's object id; a second registration
    /// under the same id replaces the first.
    pub fn track_subscription(&mut self, id: u32, sub: Subscription)
        requires
            old(self).wf(),
        ensures
            final(self).wf(),
            final(self).nodes@ == old(self).nodes@,
            final(self).default_sink == old(self).default_sink,
            final(self).emitted == old(self).emitted,
            sub_lookup(final(self).subs@, id) == Some(sub),
            forall|other: u32|
                other != id ==> sub_lookup(final(self).subs@, other) == sub_lookup(
                    old(self).subs@,
                    other,
                ),
    {
        match self.find_sub(id) {
            Some(i) => {
                proof {
                    assert forall|other: u32| other != id implies sub_lookup(
                        old(self).subs@.update(i as int, (id, sub)),
                        other,
                    ) == sub_lookup(old(self).subs@, other) by {
                        lemma_sub_lookup_update(old(self).subs@, i as int, (id, sub), other);
                    }
                    lemma_sub_unique_update(old(self).subs@, i as int, (id, sub));
                    lemma_sub_lookup_at(old(self).subs@.update(i as int, (id, sub)), i as int);
                }
                self.subs.set(i, (id, sub));
            },
            None => {
                proof {
                    assert(!has_sub(old(self).subs@, id));
                    assert forall|other: u32| other != id implies sub_lookup(
                        old(self).subs@.push((id, sub)),
                        other,
                    ) == sub_lookup(old(self).subs@, other) by {
                        lemma_sub_lookup_push(old(self).subs@, (id, sub), other);
                    }
                    lemma_sub_lookup_at(
                        old(self).subs@.push((id, sub)),
                        old(self).subs@.len() as int,
                    );
                }
                self.subs.push((id, sub));
            },
        }
    }

    /// Ends the lifecycle bookkeeping for one object id and hands back the
    /// subscription that was stored under it, if any.
    pub fn untrack(&mut self, id: u32) -> (r: Option<Subscription>)
        requires
            old(self).wf(),
        ensures
            final(self).wf(),
            final(self).nodes@ == old(self).nodes@,
            final(self).default_sink == old(self).default_sink,
            final(self).emitted == old(self).emitted,
            r == sub_lookup(old(self).subs@, id),
            sub_lookup(final(self).subs@, id) is None,
            forall|other: u32|
                other != id ==> sub_lookup(final(self).subs@, other) == sub_lookup(
                    old(self).subs@,
                    other,
                ),
    {
        match self.find_sub(id) {
            Some(i) => {
                proof {
                    lemma_sub_lookup_remove(old(self).subs@, i as int, id);
                    assert forall|other: u32| other != id implies sub_lookup(
                        old(self).subs@.remove(i as int),
                        other,
                    ) == sub_lookup(old(self).subs@, other) by {
                        lemma_sub_lookup_remove(old(self).subs@, i as int, other);
                    }
                }
                let (_, sub) = self.subs.remove(i);
                Some(sub)
            },
            None => None,
        }
    }

    /// Reacts to the bus withdrawing one tracked object: its registration
    /// is dropped, and for a node object the node's facts are dropped too,
    /// recomputing when that node was the default sink. What comes back is
    /// the emission, as for the other recomputing operations.
    pub fn on_object_removed(&mut self, id: u32) -> (emit: Option<Option<NodeFacts>>)
        requires
            old(self).wf(),
        ensures
            final(self).wf(),
            final(self).default_sink == old(self).default_sink,
            sub_lookup(final(self).subs@, id) is None,
            forall|other: u32|
                other != id ==> sub_lookup(final(self).subs@, other) == sub_lookup(
                    old(self).subs@,
                    other,
                ),
            match sub_lookup(old(self).subs@, id) {
                Some(Subscription::Node { name }) => {
                    &&& lookup(final(self).nodes@, name@) is None
                    &&& (forall|n: Seq<char>|
                        n != name@ ==> lookup(final(self).nodes@, n) == lookup(
                            old(self).nodes@,
                            n,
                        ))
                    &&& emit == emission(old(self).emitted, final(self).effective())
                },
                _ => final(self).nodes@ == old(self).nodes@ && emit is None,
            },
    {
        match self.untrack(id) {
            Some(Subscription::Node { name }) => self.remove_node(&name),
            _ => None,
        }
    }
}

/// How a parameter update combines with the facts already known for a node:
/// present fields overwrite, absent fields keep their previous value, and a
/// node becomes known only once both fields were reported.
pub open spec fn merged(
    previous: Option<NodeFacts>,
    volume: Option<u32>,
    muted: Option<bool>,
) -> Option<NodeFacts> {
    match previous {
        Some(f) => Some(
            NodeFacts {
                volume: match volume {
                    Some(v) => v,
                    None => f.volume,
                },
                muted: match muted {
                    Some(m) => m,
                    None => f.muted,
                },
            },
        ),
        None => match (volume, muted) {
            (Some(v), Some(m)) => Some(NodeFacts { volume: v, muted: m }),
            _ => None,
        },
    }
}

/// Law: the downstream listener is notified if and only if the newly
/// computed effective volume differs from the value at the previous
/// emission, and is then handed exactly the new value. Every recomputing
/// operation returns `emission(previous, computed)`, and well-formedness
/// ties the stored previous value to the last computed one, so a repeated
/// identical update is suppressed.
pub proof fn lemma_emission_iff_changed(previous: Option<NodeFacts>, computed: Option<NodeFacts>)
    ensures
        emission(previous, computed) is Some <==> computed != previous,
        emission(previous, computed) matches Some(v) ==> v == computed,
        emission(computed, computed) is None,
{
}

/// Law: merging the same parameter update a second time changes nothing
/// further. Together with the emission law this gives idempotence under
/// repeated identical input: the repeated update recomputes the same
/// effective volume, and the recomputation is suppressed.
pub proof fn lemma_merge_idempotent(
    previous: Option<NodeFacts>,
    volume: Option<u32>,
    muted: Option<bool>,
)
    ensures
        merged(merged(previous, volume, muted), volume, muted) == merged(previous, volume, muted),
{
}

/// Law: a partial parameter update never erases the field it does not
/// carry: merging into existing facts keeps the previous value of every
/// absent field and takes the supplied value of every present one.
pub proof fn lemma_partial_update_keeps_fields(
    previous: NodeFacts,
    volume: Option<u32>,
    muted: Option<bool>,
)
    ensures
        merged(Some(previous), volume, muted) matches Some(f) && {
            &&& (volume is None ==> f.volume == previous.volume)
            &&& (muted is None ==> f.muted == previous.muted)
            &&& (volume matches Some(v) ==> f.volume == v)
            &&& (muted matches Some(m) ==> f.muted == m)
        },
{
}

} // verus!
