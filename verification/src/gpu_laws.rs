//! Laws of the synchronization of cached values with a document.
use crate::composition_laws::law_style_transform_on_any_cpu;
use crate::dom::{
    lemma_nth_id_step, nth_id, KeySource, NodeId, OpacityKey, StyledDom, TransformKey, UniqueKey,
};
use crate::gpu::{current_transforms, GpuKeyEvent, GpuValueCache, Synchronization};
use crate::rect::PositionedRectangle;
use crate::ring::Ring;
use crate::scalar::Scalar;
use crate::style::{CssPropertyValue, Length, StyleTransformOrigin};
use crate::transform::{ComputedTransform3D, CpuFeatures, RotationMode};
use vstd::prelude::*;

verus! {

impl<K, V> GpuKeyEvent<K, V> {
    /// The node that the event is about.
    pub open spec fn node_id(self) -> NodeId {
        match self {
            GpuKeyEvent::Added(node_id, _, _) => node_id,
            GpuKeyEvent::Changed(node_id, _, _, _) => node_id,
            GpuKeyEvent::Removed(node_id, _) => node_id,
        }
    }

    /// The key that the event is about.
    pub open spec fn key(self) -> K {
        match self {
            GpuKeyEvent::Added(_, key, _) => key,
            GpuKeyEvent::Changed(_, key, _, _) => key,
            GpuKeyEvent::Removed(_, key) => key,
        }
    }

    /// The keys after the event.
    pub open spec fn applied_to_keys(self, keys: Map<NodeId, K>) -> Map<NodeId, K> {
        match self {
            GpuKeyEvent::Added(node_id, key, _) => keys.insert(node_id, key),
            GpuKeyEvent::Changed(..) => keys,
            GpuKeyEvent::Removed(node_id, _) => keys.remove(node_id),
        }
    }

    /// The values after the event.
    pub open spec fn applied_to_values(self, values: Map<NodeId, V>) -> Map<NodeId, V> {
        match self {
            GpuKeyEvent::Added(node_id, _, value) => values.insert(node_id, value),
            GpuKeyEvent::Changed(node_id, _, _, value) => values.insert(node_id, value),
            GpuKeyEvent::Removed(node_id, _) => values.remove(node_id),
        }
    }
}

/// The keys after a list of events, applied one after the other.
pub open spec fn replayed_keys<K, V>(
    keys: Map<NodeId, K>,
    events: Seq<GpuKeyEvent<K, V>>,
) -> Map<NodeId, K>
    decreases events.len(),
{
    if events.len() == 0 {
        keys
    } else {
        events.last().applied_to_keys(replayed_keys(keys, events.drop_last()))
    }
}

/// The values after a list of events, applied one after the other.
pub open spec fn replayed_values<K, V>(
    values: Map<NodeId, V>,
    events: Seq<GpuKeyEvent<K, V>>,
) -> Map<NodeId, V>
    decreases events.len(),
{
    if events.len() == 0 {
        values
    } else {
        events.last().applied_to_values(replayed_values(values, events.drop_last()))
    }
}

impl<K: UniqueKey, V> Synchronization<K, V> {
    /// A node has a key if and only if it has a value, and nodes are numbered by `usize`.
    pub open spec fn wf(self) -> bool {
        &&& self.keys.dom() == self.values.dom()
        &&& self.current.len() <= usize::MAX
    }

    /// The synchronization of what this one leaves with the same document.
    pub open spec fn again(self) -> Self {
        Synchronization {
            keys: self.keys_after(),
            values: self.values_after(),
            current: self.current,
            next: self.next_after(),
        }
    }

    /// Every key is the only one of its id, and new ids are larger.
    pub open spec fn keys_unique(keys: Map<NodeId, K>, next: usize) -> bool {
        &&& forall|n: NodeId| #[trigger] keys.contains_key(n) ==> keys[n].spec_id() < next
        &&& forall|n: NodeId, m: NodeId| #[trigger]
            keys.contains_key(n) && #[trigger] keys.contains_key(m) && keys[n].spec_id()
                == keys[m].spec_id() ==> n == m
    }
}

/// The keys and the values afterwards are those before, with the events applied one
/// after the other: whoever has the keys and gets the events keeps up.
pub proof fn law_events_replay<K: UniqueKey, V>(s: Synchronization<K, V>)
    requires
        s.current.len() <= usize::MAX,
    ensures
        replayed_keys(s.keys, s.events()) == s.keys_after(),
        replayed_values(s.values, s.events()) == s.values_after(),
{
    lemma_replay_before(s, s.current.len() as int);
    assert(replayed_keys(s.keys, s.events()) =~= s.keys_after());
    assert(replayed_values(s.values, s.events()) =~= s.values_after());
}

proof fn lemma_replay_before<K: UniqueKey, V>(s: Synchronization<K, V>, i: int)
    requires
        0 <= i <= s.current.len(),
        s.current.len() <= usize::MAX,
    ensures
        ({
            let keys = replayed_keys(s.keys, s.events_before(i));
            forall|k: NodeId|
                #![trigger keys.contains_key(k)]
                #![trigger keys[k]]
                if k < i {
                    keys.contains_key(k) == s.has_key_after(k) && (keys.contains_key(k)
                        ==> keys[k] == s.key_after(k))
                } else {
                    keys.contains_key(k) == s.keys.contains_key(k) && (keys.contains_key(k)
                        ==> keys[k] == s.keys[k])
                }
        }),
        ({
            let values = replayed_values(s.values, s.events_before(i));
            forall|k: NodeId|
                #![trigger values.contains_key(k)]
                #![trigger values[k]]
                if k < i {
                    values.contains_key(k) == s.has_value_after(k) && (values.contains_key(k)
                        ==> values[k] == s.value_after(k))
                } else {
                    values.contains_key(k) == s.values.contains_key(k) && (values.contains_key(k)
                        ==> values[k] == s.values[k])
                }
        }),
    decreases i,
{
    if i > 0 {
        lemma_replay_before(s, i - 1);
        let before = s.events_before(i - 1);
        let n = (i - 1) as usize;
        match s.event(n as int) {
            Some(event) => {
                assert(s.events_before(i) == before.push(event));
                assert(before.push(event).drop_last() =~= before);
                assert(before.push(event).last() == event);
                let keys = replayed_keys(s.keys, before);
                let values = replayed_values(s.values, before);
                assert(replayed_keys(s.keys, s.events_before(i)) == event.applied_to_keys(keys));
                assert(replayed_values(s.values, s.events_before(i)) == event.applied_to_values(
                    values,
                ));
                assert(event.node_id() == n);
                assert(keys.contains_key(n) == s.keys.contains_key(n));
                assert(values.contains_key(n) == s.values.contains_key(n));
            },
            None => {
                assert(s.events_before(i) == before);
            },
        }
    }
}

/// The events come in the order of the nodes, at most one for each node.
pub proof fn law_events_in_node_order<K: UniqueKey, V>(s: Synchronization<K, V>)
    requires
        s.current.len() <= usize::MAX,
    ensures
        forall|a: int, b: int|
            0 <= a < b < s.events().len() ==> #[trigger] s.events()[a].node_id()
                < #[trigger] s.events()[b].node_id(),
{
    lemma_order_before(s, s.current.len() as int);
}

proof fn lemma_order_before<K: UniqueKey, V>(s: Synchronization<K, V>, i: int)
    requires
        0 <= i <= s.current.len(),
        s.current.len() <= usize::MAX,
    ensures
        forall|a: int|
            0 <= a < s.events_before(i).len() ==> #[trigger] s.events_before(i)[a].node_id() < i,
        forall|a: int, b: int|
            0 <= a < b < s.events_before(i).len() ==> #[trigger] s.events_before(i)[a].node_id()
                < #[trigger] s.events_before(i)[b].node_id(),
    decreases i,
{
    if i > 0 {
        lemma_order_before(s, i - 1);
        let before = s.events_before(i - 1);
        match s.event(i - 1) {
            Some(event) => {
                let events = s.events_before(i);
                assert(events == before.push(event));
                assert(event.node_id() == i - 1);
                assert forall|a: int| 0 <= a < events.len() implies #[trigger] events[a].node_id()
                    < i && (a < before.len() ==> events[a] == before[a] && events[a].node_id() < i
                    - 1) by {
                    if a < before.len() {
                        assert(events[a] == before[a]);
                        assert(before[a].node_id() < i - 1);
                    }
                }
                assert forall|a: int, b: int| 0 <= a < b < events.len() implies #[trigger] events[a]
                    .node_id() < #[trigger] events[b].node_id() by {
                    if b < before.len() {
                        assert(before[a].node_id() < before[b].node_id());
                    }
                }
            },
            None => {
                assert(s.events_before(i) == before);
                assert forall|a: int| 0 <= a < before.len() implies #[trigger] before[a].node_id()
                    < i by {
                    assert(before[a].node_id() < i - 1);
                }
            },
        }
    }
}

/// The events are those of the nodes: every event is what happens to its node, and
/// what happens to any node is among the events.
pub proof fn law_events_are_those_of_the_nodes<K: UniqueKey, V>(s: Synchronization<K, V>)
    requires
        s.current.len() <= usize::MAX,
    ensures
        forall|a: int|
            0 <= a < s.events().len() ==> s.event((#[trigger] s.events()[a]).node_id() as int)
                == Some(s.events()[a]),
        forall|i: int| (#[trigger] s.event(i)) is Some ==> s.events().contains(s.event(i).unwrap()),
{
    lemma_belongs_before(s, s.current.len() as int);
    assert forall|i: int| (#[trigger] s.event(i)) is Some implies s.events().contains(
        s.event(i).unwrap(),
    ) by {
        lemma_contains_before(s, i, s.current.len() as int);
    }
}

proof fn lemma_belongs_before<K: UniqueKey, V>(s: Synchronization<K, V>, i: int)
    requires
        0 <= i <= s.current.len(),
        s.current.len() <= usize::MAX,
    ensures
        forall|a: int|
            0 <= a < s.events_before(i).len() ==> s.event(
                (#[trigger] s.events_before(i)[a]).node_id() as int,
            ) == Some(s.events_before(i)[a]),
    decreases i,
{
    if i > 0 {
        lemma_belongs_before(s, i - 1);
        let before = s.events_before(i - 1);
        let events = s.events_before(i);
        assert forall|a: int| 0 <= a < events.len() implies s.event(
            (#[trigger] events[a]).node_id() as int,
        ) == Some(events[a]) by {
            if a < before.len() {
                assert(events[a] == before[a]);
            }
        }
    }
}

proof fn lemma_contains_before<K: UniqueKey, V>(s: Synchronization<K, V>, i: int, end: int)
    requires
        0 <= i < end <= s.current.len(),
        s.event(i) is Some,
    ensures
        s.events_before(end).contains(s.event(i).unwrap()),
    decreases end,
{
    let event = s.event(i).unwrap();
    if i == end - 1 {
        let n = s.events_before(end - 1).len() as int;
        assert(s.events_before(end)[n] == event);
    } else {
        lemma_contains_before(s, i, end - 1);
        let before = s.events_before(end - 1);
        let n = choose|n: int| 0 <= n < before.len() && before[n] == event;
        assert(s.events_before(end)[n] == event);
    }
}

/// Afterwards the cache agrees with the document: a node with an exact value has that
/// value and a key, a node whose property has no exact value has neither, and a node
/// of which the document says nothing is as it was.
pub proof fn law_cache_agrees_with_document<K: UniqueKey, V>(
    s: Synchronization<K, V>,
    node_id: NodeId,
)
    requires
        s.wf(),
    ensures
        s.keys_after().contains_key(node_id) == s.values_after().contains_key(node_id),
        node_id < s.current.len() ==> match s.current[node_id as int] {
            Some(Some(value)) => s.values_after().contains_key(node_id)
                && s.values_after()[node_id] == value,
            Some(None) => !s.values_after().contains_key(node_id),
            None => true,
        },
        (node_id >= s.current.len() || s.current[node_id as int] is None) ==> {
            &&& s.values_after().contains_key(node_id) == s.values.contains_key(node_id)
            &&& s.values.contains_key(node_id) ==> s.values_after()[node_id] == s.values[node_id]
            &&& s.keys.contains_key(node_id) ==> s.keys_after()[node_id] == s.keys[node_id]
        },
{
    assert(s.keys.dom().contains(node_id) == s.values.dom().contains(node_id));
}

/// A node that keeps having a value keeps its key.
pub proof fn law_keys_are_kept<K: UniqueKey, V>(s: Synchronization<K, V>, node_id: NodeId)
    requires
        s.wf(),
        s.keys.contains_key(node_id),
        s.keys_after().contains_key(node_id),
    ensures
        s.keys_after()[node_id] == s.keys[node_id],
{
    assert(s.values.dom().contains(node_id));
}

/// To synchronize again with the same document changes nothing: no key and no value
/// changes, no node is added or removed, and every event tells the value that the node
/// already has.
pub proof fn law_synchronizing_again_changes_nothing<K: UniqueKey, V>(s: Synchronization<K, V>)
    requires
        s.wf(),
    ensures
        s.again().wf(),
        s.again().keys_after() == s.keys_after(),
        s.again().values_after() == s.values_after(),
        s.again().next_after() == s.next_after(),
        forall|i: int|
            0 <= i < s.current.len() ==> match #[trigger] s.again().event(i) {
                Some(event) => event matches GpuKeyEvent::Changed(_, _, old, new) && old == new,
                None => true,
            },
{
    let t = s.again();
    assert forall|n: NodeId| s.keys_after().contains_key(n) == #[trigger] s.values_after()
        .contains_key(n) by {
        assert(s.keys.dom().contains(n) == s.values.dom().contains(n));
    }
    assert(t.keys.dom() =~= t.values.dom());
    assert forall|i: int| 0 <= i < s.current.len() implies match #[trigger] t.event(i) {
        Some(event) => event matches GpuKeyEvent::Changed(_, _, old, new) && old == new,
        None => true,
    } && !t.is_added(i) by {
        let n = i as usize;
        assert(s.keys.dom().contains(n) == s.values.dom().contains(n));
        assert(t.keys.dom().contains(n) == t.values.dom().contains(n));
    }
    assert(t.keys_after() =~= t.keys);
    assert(t.values_after() =~= t.values);
    lemma_none_added(t, s.current.len() as int);
    lemma_nth_id_step(t.next, 0);
}

/// What synchronizing an empty cache adds, synchronizing it again with the same document
/// names again: the second events are about the same nodes and keys as the first ones, in
/// the same order.
pub proof fn law_second_events_name_the_same<K: UniqueKey, V>(s: Synchronization<K, V>)
    requires
        s.wf(),
        s.keys == Map::<NodeId, K>::empty(),
    ensures
        s.again().events().len() == s.events().len(),
        forall|a: int|
            0 <= a < s.events().len() ==> {
                &&& #[trigger] s.events()[a] is Added
                &&& s.again().events()[a] is Changed
                &&& s.again().events()[a].node_id() == s.events()[a].node_id()
                &&& s.again().events()[a].key() == s.events()[a].key()
            },
{
    assert(s.values =~= Map::<NodeId, V>::empty()) by {
        assert(s.values.dom() == s.keys.dom());
    }
    lemma_second_before(s, s.current.len() as int);
}

proof fn lemma_second_before<K: UniqueKey, V>(s: Synchronization<K, V>, i: int)
    requires
        0 <= i <= s.current.len() <= usize::MAX,
        s.keys == Map::<NodeId, K>::empty(),
        s.values == Map::<NodeId, V>::empty(),
    ensures
        s.again().events_before(i).len() == s.events_before(i).len(),
        forall|a: int|
            0 <= a < s.events_before(i).len() ==> {
                &&& #[trigger] s.events_before(i)[a] is Added
                &&& s.again().events_before(i)[a] is Changed
                &&& s.again().events_before(i)[a].node_id() == s.events_before(i)[a].node_id()
                &&& s.again().events_before(i)[a].key() == s.events_before(i)[a].key()
            },
    decreases i,
{
    if i > 0 {
        lemma_second_before(s, i - 1);
        let n = (i - 1) as usize;
        let first = s.events_before(i - 1);
        let second = s.again().events_before(i - 1);
        assert(s.keys_after().contains_key(n) == s.has_key_after(n));
        assert(s.values_after().contains_key(n) == s.has_value_after(n));
        assert forall|a: int| 0 <= a < s.events_before(i).len() implies {
            &&& #[trigger] s.events_before(i)[a] is Added
            &&& s.again().events_before(i)[a] is Changed
            &&& s.again().events_before(i)[a].node_id() == s.events_before(i)[a].node_id()
            &&& s.again().events_before(i)[a].key() == s.events_before(i)[a].key()
        } by {
            if a < first.len() {
                assert(s.events_before(i)[a] == first[a]);
                assert(s.again().events_before(i)[a] == second[a]);
            }
        }
    }
}

proof fn lemma_none_added<K: UniqueKey, V>(s: Synchronization<K, V>, i: int)
    requires
        forall|k: int| 0 <= k < i ==> !s.is_added(k),
    ensures
        s.added_before(i) == 0,
    decreases i,
{
    if i > 0 {
        assert(!s.is_added(i - 1));
        lemma_none_added(s, i - 1);
    }
}

proof fn lemma_added_grows<K: UniqueKey, V>(s: Synchronization<K, V>, i: int, j: int)
    requires
        0 <= i <= j,
    ensures
        s.added_before(i) <= s.added_before(j),
        i < j && s.is_added(i) ==> s.added_before(i) < s.added_before(j),
    decreases j,
{
    if i < j {
        lemma_added_grows(s, i, j - 1);
    }
}

/// New keys are unlike all others: as long as the ids do not start over, the keys stay
/// unique.
pub proof fn law_keys_stay_unique<K: UniqueKey, V>(s: Synchronization<K, V>)
    requires
        s.wf(),
        Synchronization::<K, V>::keys_unique(s.keys, s.next),
        s.next + s.added_before(s.current.len() as int) <= usize::MAX,
    ensures
        Synchronization::<K, V>::keys_unique(s.keys_after(), s.next_after()),
        s.next_after() == s.next + s.added_before(s.current.len() as int),
{
    let end = s.current.len() as int;
    let keys = s.keys_after();
    let next = s.next_after();
    let m = (usize::MAX + 1) as nat;
    vstd::arithmetic::div_mod::lemma_small_mod((s.next + s.added_before(end)) as nat, m);
    assert forall|n: NodeId| #[trigger] keys.contains_key(n) implies keys[n].spec_id() < next && (
    s.is_added(n as int) ==> keys[n].spec_id() == s.next + s.added_before(n as int)) && (
    !s.is_added(n as int) ==> s.keys.contains_key(n) && keys[n] == s.keys[n]) by {
        assert(s.keys.dom().contains(n) == s.values.dom().contains(n));
        if s.is_added(n as int) {
            lemma_added_grows(s, n as int, end);
            vstd::arithmetic::div_mod::lemma_small_mod(
                (s.next + s.added_before(n as int)) as nat,
                m,
            );
            K::lemma_id(nth_id(s.next, s.added_before(n as int)));
        }
    }
    assert forall|n: NodeId, k: NodeId| #[trigger]
        keys.contains_key(n) && #[trigger] keys.contains_key(k) && keys[n].spec_id()
            == keys[k].spec_id() implies n == k by {
        if s.is_added(n as int) && s.is_added(k as int) {
            if n < k {
                lemma_added_grows(s, n as int, k as int);
            } else if k < n {
                lemma_added_grows(s, k as int, n as int);
            }
        } else if !s.is_added(n as int) && !s.is_added(k as int) {
            assert(s.keys.contains_key(n) && s.keys.contains_key(k));
        }
    }
}

/// Where scalars are exact, all processors compute the same transforms of the nodes, so
/// that all of them synchronize in the same way. With floating point numbers the
/// transforms may differ in their last digits, as the vector instructions round in
/// another order.
pub proof fn law_synchronization_on_any_cpu<S: Ring>(
    cache: GpuValueCache<S>,
    positioned_rects: Seq<PositionedRectangle<S>>,
    styled_dom: StyledDom<S>,
    source: KeySource,
    cpu: CpuFeatures,
    other_cpu: CpuFeatures,
)
    ensures
        cache.transform_synchronization(
            positioned_rects,
            styled_dom,
            cpu,
            source,
        ) == cache.transform_synchronization(
            positioned_rects,
            styled_dom,
            other_cpu,
            source,
        ),
{
    let nodes = styled_dom.node_data@;
    let here = current_transforms(nodes, positioned_rects, cpu);
    let there = current_transforms(nodes, positioned_rects, other_cpu);
    assert forall|i: int| 0 <= i < nodes.len() implies here[i] == there[i] by {
        if let Some(CssPropertyValue::Exact(t)) = nodes[i].transform {
            law_style_transform_on_any_cpu(
                t@,
                nodes[i].origin(),
                positioned_rects[i].size.width,
                positioned_rects[i].size.height,
                RotationMode::ForWebRender,
                cpu,
                other_cpu,
            );
        }
    }
    assert(here =~= there);
}

/// Every event tells what happened to its node. An added node had no value before, and
/// the event has its key and its value afterwards. A changed node had a key and a value,
/// keeps the key, and the event has the value before and the one afterwards. A removed
/// node had the key of the event, and has neither key nor value afterwards. Without an
/// event nothing changes.
pub proof fn law_events_tell_what_happened<K: UniqueKey, V>(
    s: Synchronization<K, V>,
    node_id: NodeId,
)
    requires
        node_id < s.current.len(),
    ensures
        match s.event(node_id as int) {
            Some(GpuKeyEvent::Added(n, key, value)) => {
                &&& n == node_id
                &&& !s.values.contains_key(n)
                &&& s.keys_after().contains_key(n) && s.keys_after()[n] == key
                &&& s.values_after().contains_key(n) && s.values_after()[n] == value
                &&& s.current[n as int] == Some(Some(value))
            },
            Some(GpuKeyEvent::Changed(n, key, old, new)) => {
                &&& n == node_id
                &&& s.keys.contains_key(n) && s.keys[n] == key
                &&& s.values.contains_key(n) && s.values[n] == old
                &&& s.keys_after().contains_key(n) && s.keys_after()[n] == key
                &&& s.values_after().contains_key(n) && s.values_after()[n] == new
                &&& s.current[n as int] == Some(Some(new))
            },
            Some(GpuKeyEvent::Removed(n, key)) => {
                &&& n == node_id
                &&& s.keys.contains_key(n) && s.keys[n] == key
                &&& s.values.contains_key(n)
                &&& !s.keys_after().contains_key(n)
                &&& !s.values_after().contains_key(n)
                &&& s.current[n as int] == Some(None::<V>)
            },
            None => {
                &&& s.keys_after().contains_key(node_id) == s.keys.contains_key(node_id)
                &&& s.keys.contains_key(node_id) ==> s.keys_after()[node_id] == s.keys[node_id]
                &&& s.values_after().contains_key(node_id) == s.values.contains_key(node_id)
                &&& s.values.contains_key(node_id) ==> s.values_after()[node_id]
                    == s.values[node_id]
            },
        },
{
}

/// A node has no event if and only if the document says nothing of its property, or says
/// that it has no value where it had none, or the node has a value without a key.
pub proof fn law_when_there_is_no_event<K: UniqueKey, V>(s: Synchronization<K, V>, node_id: NodeId)
    requires
        node_id < s.current.len(),
    ensures
        s.event(node_id as int) is None <==> {
            ||| s.current[node_id as int] is None
            ||| s.current[node_id as int] == Some(None::<V>) && !s.values.contains_key(node_id)
            ||| s.values.contains_key(node_id) && !s.keys.contains_key(node_id)
        },
{
}

/// Whether node `i` is added.
pub open spec fn adds<K: UniqueKey, V>(s: Synchronization<K, V>, i: int) -> bool {
    s.event(i) matches Some(GpuKeyEvent::Added(_, _, _))
}

/// Keys are handed out in the order of the nodes, each with the id after the one before:
/// the first node that is added gets the next id of the source, and the source goes on
/// with the id after the last.
pub proof fn law_keys_are_consecutive<K: UniqueKey, V>(s: Synchronization<K, V>, i: int, j: int)
    requires
        s.current.len() <= usize::MAX,
        0 <= i < j <= s.current.len(),
        adds(s, i),
        forall|k: int| i < k < j ==> !(#[trigger] adds(s, k)),
    ensures
        (forall|k: int| 0 <= k < i ==> !(#[trigger] adds(s, k))) ==> s.keys_after()[i as usize]
            == K::spec_from_id(s.next),
        j < s.current.len() && adds(s, j) ==> ({
            let before = s.keys_after()[i as usize].spec_id();
            let id = s.keys_after()[j as usize].spec_id();
            id == if before == usize::MAX {
                0
            } else {
                before + 1
            }
        }),
        j == s.current.len() ==> ({
            let before = s.keys_after()[i as usize].spec_id();
            s.next_after() == if before == usize::MAX {
                0
            } else {
                before + 1
            }
        }),
{
    let n = s.added_before(i);
    assert forall|k: int| i + 1 <= k < j implies !(#[trigger] s.is_added(k)) by {
        assert(!adds(s, k));
    }
    lemma_same_count(s, i + 1, j);
    lemma_nth_id_step(s.next, n);
    law_ids_count_up(nth_id(s.next, n));
    K::lemma_id(nth_id(s.next, n));
    K::lemma_id(nth_id(s.next, n + 1));
    assert(s.keys_after().contains_key(i as usize));
    assert(s.keys_after()[i as usize] == s.new_key(i));
    if j < s.current.len() && adds(s, j) {
        assert(s.keys_after().contains_key(j as usize));
        assert(s.keys_after()[j as usize] == s.new_key(j));
    }
    if forall|k: int| 0 <= k < i ==> !(#[trigger] adds(s, k)) {
        assert forall|k: int| 0 <= k < i implies !s.is_added(k) by {
            assert(!adds(s, k));
        }
        lemma_none_added(s, i);
        lemma_nth_id_step(s.next, 0);
    }
}

/// Without any new key, the source stays where it is.
pub proof fn law_source_stays_without_new_keys<K: UniqueKey, V>(s: Synchronization<K, V>)
    requires
        forall|k: int| 0 <= k < s.current.len() ==> !(#[trigger] adds(s, k)),
    ensures
        s.next_after() == s.next,
{
    assert forall|k: int| 0 <= k < s.current.len() implies !s.is_added(k) by {
        assert(!adds(s, k));
    }
    lemma_none_added(s, s.current.len() as int);
    lemma_nth_id_step(s.next, 0);
}

proof fn lemma_same_count<K: UniqueKey, V>(s: Synchronization<K, V>, i: int, j: int)
    requires
        0 <= i <= j,
        forall|k: int| i <= k < j ==> !(#[trigger] s.is_added(k)),
    ensures
        s.added_before(j) == s.added_before(i),
    decreases j,
{
    if i < j {
        assert(!s.is_added(j - 1));
        lemma_same_count(s, i, j - 1);
    }
}

/// The id after an id is larger by 1, and after the largest one ids start over at 0.
pub proof fn law_ids_count_up(id: usize)
    ensures
        nth_id(id, 0) == id,
        nth_id(id, 1) == if id == usize::MAX {
            0
        } else {
            id + 1
        },
{
    let m: int = usize::MAX + 1;
    lemma_nth_id_step(id, 0);
    if id == usize::MAX {
        vstd::arithmetic::div_mod::lemma_mod_self_0(m);
    } else {
        vstd::arithmetic::div_mod::lemma_small_mod((id + 1) as nat, m as nat);
    }
}

/// A key is made of its id, and of nothing else.
pub proof fn law_keys_hold_their_ids(id: usize)
    ensures
        TransformKey::spec_from_id(id) == (TransformKey { id }),
        OpacityKey::spec_from_id(id) == (OpacityKey { id }),
        (TransformKey { id }).spec_id() == id,
        (OpacityKey { id }).spec_id() == id,
{
}

/// The cache holds the opacity of every node as the document says it: an exact opacity
/// itself, with the event that adds it or changes to it, no opacity for a keyword, and
/// what it was where the document says nothing.
pub proof fn law_opacities_are_those_of_the_document<S: Scalar>(
    cache: GpuValueCache<S>,
    styled_dom: StyledDom<S>,
    source: KeySource,
    node_id: NodeId,
)
    requires
        cache.wf(),
        node_id < styled_dom.node_data@.len(),
    ensures
        ({
            let s = cache.opacity_synchronization(styled_dom, source);
            let had = cache.current_opacity_values@.contains_key(node_id);
            match styled_dom.node_data@[node_id as int].opacity {
                Some(CssPropertyValue::Exact(opacity)) => {
                    &&& s.values_after().contains_key(node_id)
                    &&& s.values_after()[node_id] == opacity
                    &&& s.keys_after().contains_key(node_id)
                    &&& s.event(node_id as int) == Some(
                        if had {
                            GpuKeyEvent::Changed(
                                node_id,
                                cache.opacity_keys@[node_id],
                                cache.current_opacity_values@[node_id],
                                opacity,
                            )
                        } else {
                            GpuKeyEvent::Added(node_id, s.keys_after()[node_id], opacity)
                        },
                    )
                    &&& s.events().contains(s.event(node_id as int).unwrap())
                },
                Some(_) => {
                    &&& !s.values_after().contains_key(node_id)
                    &&& !s.keys_after().contains_key(node_id)
                    &&& had ==> s.event(node_id as int) == Some(
                        GpuKeyEvent::<OpacityKey, S>::Removed(
                            node_id,
                            cache.opacity_keys@[node_id],
                        ),
                    )
                    &&& !had ==> s.event(node_id as int) is None
                },
                None => {
                    &&& s.event(node_id as int) is None
                    &&& s.values_after().contains_key(node_id) == had
                    &&& had ==> s.values_after()[node_id] == cache.current_opacity_values@[node_id]
                    &&& had ==> s.keys_after()[node_id] == cache.opacity_keys@[node_id]
                },
            }
        }),
{
    let s = cache.opacity_synchronization(styled_dom, source);
    assert(s.keys.dom().contains(node_id) == s.values.dom().contains(node_id));
    if s.event(node_id as int) is Some {
        lemma_contains_before(s, node_id as int, s.current.len() as int);
    }
}

/// The cache holds the transform of every node as the document says it: for exact
/// functions the matrix that they give for the renderer, about the origin of the node and
/// with percentages of the width and the height of its rectangle, with the event that
/// adds it or changes to it; none for a keyword; and what it was where the document says
/// nothing.
pub proof fn law_transforms_are_those_of_the_document<S: Scalar>(
    cache: GpuValueCache<S>,
    positioned_rects: Seq<PositionedRectangle<S>>,
    styled_dom: StyledDom<S>,
    cpu: CpuFeatures,
    source: KeySource,
    node_id: NodeId,
)
    requires
        cache.wf(),
        node_id < styled_dom.node_data@.len(),
    ensures
        ({
            let s = cache.transform_synchronization(positioned_rects, styled_dom, cpu, source);
            let node = styled_dom.node_data@[node_id as int];
            let had = cache.current_transform_values@.contains_key(node_id);
            match node.transform {
                Some(CssPropertyValue::Exact(functions)) => {
                    let origin = match node.transform_origin {
                        Some(CssPropertyValue::Exact(origin)) => origin,
                        _ => StyleTransformOrigin {
                            x: Length::Percent(S::spec_hundred().spec_over(S::spec_two())),
                            y: Length::Percent(S::spec_hundred().spec_over(S::spec_two())),
                        },
                    };
                    let matrix = ComputedTransform3D::spec_from_style_transform_vec(
                        functions@,
                        origin,
                        positioned_rects[node_id as int].size.width,
                        positioned_rects[node_id as int].size.height,
                        RotationMode::ForWebRender,
                        cpu,
                    );
                    &&& s.values_after().contains_key(node_id)
                    &&& s.values_after()[node_id] == matrix
                    &&& s.keys_after().contains_key(node_id)
                    &&& s.event(node_id as int) == Some(
                        if had {
                            GpuKeyEvent::Changed(
                                node_id,
                                cache.transform_keys@[node_id],
                                cache.current_transform_values@[node_id],
                                matrix,
                            )
                        } else {
                            GpuKeyEvent::Added(node_id, s.keys_after()[node_id], matrix)
                        },
                    )
                    &&& s.events().contains(s.event(node_id as int).unwrap())
                },
                Some(_) => {
                    &&& !s.values_after().contains_key(node_id)
                    &&& !s.keys_after().contains_key(node_id)
                    &&& had ==> s.event(node_id as int) == Some(
                        GpuKeyEvent::<TransformKey, ComputedTransform3D<S>>::Removed(
                            node_id,
                            cache.transform_keys@[node_id],
                        ),
                    )
                    &&& !had ==> s.event(node_id as int) is None
                },
                None => {
                    &&& s.event(node_id as int) is None
                    &&& s.values_after().contains_key(node_id) == had
                    &&& had ==> s.values_after()[node_id]
                        == cache.current_transform_values@[node_id]
                    &&& had ==> s.keys_after()[node_id] == cache.transform_keys@[node_id]
                },
            }
        }),
{
    let s = cache.transform_synchronization(positioned_rects, styled_dom, cpu, source);
    assert(s.keys.dom().contains(node_id) == s.values.dom().contains(node_id));
    if s.event(node_id as int) is Some {
        lemma_contains_before(s, node_id as int, s.current.len() as int);
    }
}

/// Nodes that are not in the document are left as they are, and all nodes of it are
/// looked at.
pub proof fn law_other_nodes_are_left_alone<S: Scalar>(
    cache: GpuValueCache<S>,
    positioned_rects: Seq<PositionedRectangle<S>>,
    styled_dom: StyledDom<S>,
    cpu: CpuFeatures,
    source: KeySource,
    node_id: NodeId,
)
    requires
        node_id >= styled_dom.node_data@.len(),
    ensures
        ({
            let s = cache.transform_synchronization(positioned_rects, styled_dom, cpu, source);
            &&& s.current.len() == styled_dom.node_data@.len()
            &&& s.next == source.next
            &&& s.keys == cache.transform_keys@
            &&& s.values == cache.current_transform_values@
            &&& s.event(node_id as int) is None
            &&& s.values_after().contains_key(node_id) == cache.current_transform_values@
                .contains_key(node_id)
            &&& cache.current_transform_values@.contains_key(node_id) ==> s.values_after()[node_id]
                == cache.current_transform_values@[node_id]
        }),
        ({
            let s = cache.opacity_synchronization(styled_dom, source);
            &&& s.current.len() == styled_dom.node_data@.len()
            &&& s.next == source.next
            &&& s.keys == cache.opacity_keys@
            &&& s.values == cache.current_opacity_values@
            &&& s.event(node_id as int) is None
            &&& s.values_after().contains_key(node_id) == cache.current_opacity_values@
                .contains_key(node_id)
            &&& cache.current_opacity_values@.contains_key(node_id) ==> s.values_after()[node_id]
                == cache.current_opacity_values@[node_id]
        }),
{
}

} // verus!
