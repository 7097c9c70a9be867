//! The transforms and opacities that are cached on the GPU.
use crate::dom::{
    lemma_nth_id_step, nth_id, KeySource, KeySources, NodeId, OpacityKey, StyledDom, StyledNode,
    TransformKey, UniqueKey,
};
use crate::geometry::LogicalSize;
use crate::parallel::map_indices;
use crate::rect::PositionedRectangle;
use crate::scalar::Scalar;
use crate::style::{CssPropertyValue, StyleTransformOrigin};
use crate::transform::{ComputedTransform3D, CpuFeatures, RotationMode};
use std::collections::BTreeMap;
use vstd::prelude::*;

verus! {

/// How the cached value of a node changed.
#[derive(Debug, Clone, Copy, PartialEq, PartialOrd)]
pub enum GpuKeyEvent<K, V> {
    /// The node, its new key and its value.
    Added(NodeId, K, V),
    /// The node, its key, the old and the new value.
    Changed(NodeId, K, V, V),
    /// The node and the key that it had.
    Removed(NodeId, K),
}

pub type GpuTransformKeyEvent<S> = GpuKeyEvent<TransformKey, ComputedTransform3D<S>>;

pub type GpuOpacityKeyEvent<S> = GpuKeyEvent<OpacityKey, S>;

/// All changes of one synchronization, each kind in the order of the nodes.
#[derive(Debug, Clone, PartialEq, PartialOrd)]
pub struct GpuEventChanges<S> {
    pub transform_key_changes: Vec<GpuTransformKeyEvent<S>>,
    pub opacity_key_changes: Vec<GpuOpacityKeyEvent<S>>,
}

impl<S: Scalar> GpuEventChanges<S> {
    pub fn empty() -> (r: Self)
        ensures
            r.transform_key_changes@ == Seq::<GpuTransformKeyEvent<S>>::empty(),
            r.opacity_key_changes@ == Seq::<GpuOpacityKeyEvent<S>>::empty(),
    {
        GpuEventChanges { transform_key_changes: Vec::new(), opacity_key_changes: Vec::new() }
    }

    pub fn is_empty(&self) -> (r: bool)
        ensures
            r == (self.transform_key_changes@.len() == 0 && self.opacity_key_changes@.len() == 0),
    {
        self.transform_key_changes.len() == 0 && self.opacity_key_changes.len() == 0
    }
}

impl<S: Scalar> Default for GpuEventChanges<S> {
    fn default() -> (r: Self)
        ensures
            r.transform_key_changes@ == Seq::<GpuTransformKeyEvent<S>>::empty(),
            r.opacity_key_changes@ == Seq::<GpuOpacityKeyEvent<S>>::empty(),
    {
        Self::empty()
    }
}

/// What a new layout changed.
#[derive(Debug, Clone, PartialEq, PartialOrd)]
pub struct RelayoutChanges<S> {
    pub resized_nodes: Vec<NodeId>,
    pub gpu_key_changes: GpuEventChanges<S>,
}

impl<S: Scalar> RelayoutChanges<S> {
    pub fn empty() -> (r: Self)
        ensures
            r.resized_nodes@ == Seq::<NodeId>::empty(),
            r.gpu_key_changes.transform_key_changes@ == Seq::<GpuTransformKeyEvent<S>>::empty(),
            r.gpu_key_changes.opacity_key_changes@ == Seq::<GpuOpacityKeyEvent<S>>::empty(),
    {
        RelayoutChanges { resized_nodes: Vec::new(), gpu_key_changes: GpuEventChanges::empty() }
    }
}

impl<S: Scalar> Default for RelayoutChanges<S> {
    fn default() -> (r: Self)
        ensures
            r.resized_nodes@ == Seq::<NodeId>::empty(),
            r.gpu_key_changes.transform_key_changes@ == Seq::<GpuTransformKeyEvent<S>>::empty(),
            r.gpu_key_changes.opacity_key_changes@ == Seq::<GpuOpacityKeyEvent<S>>::empty(),
    {
        Self::empty()
    }
}

/// The keys and the values of all nodes whose transform or opacity is cached.
#[derive(Debug, Clone, PartialEq, PartialOrd)]
pub struct GpuValueCache<S> {
    pub transform_keys: BTreeMap<NodeId, TransformKey>,
    pub current_transform_values: BTreeMap<NodeId, ComputedTransform3D<S>>,
    pub opacity_keys: BTreeMap<NodeId, OpacityKey>,
    pub current_opacity_values: BTreeMap<NodeId, S>,
}

/// One kind of values: the keys and the values of the nodes, what the document now
/// says of each node, and the id of the next key.
///
/// Of a node the document says nothing (`None`), or that the property is set
/// without an exact value (`Some(None)`), or the exact value.
#[verifier::ext_equal]
pub ghost struct Synchronization<K, V> {
    pub keys: Map<NodeId, K>,
    pub values: Map<NodeId, V>,
    pub current: Seq<Option<Option<V>>>,
    pub next: usize,
}

impl<K: UniqueKey, V> Synchronization<K, V> {
    /// Whether node `i` gets a value, and with it a key, that it did not have.
    pub open spec fn is_added(self, i: int) -> bool {
        &&& 0 <= i < self.current.len()
        &&& self.current[i] matches Some(Some(_))
        &&& !self.values.contains_key(i as usize)
    }

    /// How many of the nodes before `i` are added.
    pub open spec fn added_before(self, i: int) -> nat
        decreases i,
    {
        if i <= 0 {
            0
        } else {
            self.added_before(i - 1) + if self.is_added(i - 1) { 1nat } else { 0nat }
        }
    }

    /// The key that node `i` gets if it is added: keys are handed out in the order
    /// of the nodes.
    pub open spec fn new_key(self, i: int) -> K {
        K::spec_from_id(nth_id(self.next, self.added_before(i)))
    }

    /// What happens to node `i`. A node that has a value but no key stays as it is.
    pub open spec fn event(self, i: int) -> Option<GpuKeyEvent<K, V>> {
        let node_id = i as usize;
        if !(0 <= i < self.current.len()) {
            None
        } else {
            match self.current[i] {
                None => None,
                Some(Some(new)) => if !self.values.contains_key(node_id) {
                    Some(GpuKeyEvent::Added(node_id, self.new_key(i), new))
                } else if self.keys.contains_key(node_id) {
                    Some(
                        GpuKeyEvent::Changed(
                            node_id,
                            self.keys[node_id],
                            self.values[node_id],
                            new,
                        ),
                    )
                } else {
                    None
                },
                Some(None) => if self.values.contains_key(node_id) && self.keys.contains_key(
                    node_id,
                ) {
                    Some(GpuKeyEvent::Removed(node_id, self.keys[node_id]))
                } else {
                    None
                },
            }
        }
    }

    /// The events of the nodes before `i`, in the order of the nodes.
    pub open spec fn events_before(self, i: int) -> Seq<GpuKeyEvent<K, V>>
        decreases i,
    {
        if i <= 0 {
            Seq::empty()
        } else {
            match self.event(i - 1) {
                Some(event) => self.events_before(i - 1).push(event),
                None => self.events_before(i - 1),
            }
        }
    }

    /// All events.
    pub open spec fn events(self) -> Seq<GpuKeyEvent<K, V>> {
        self.events_before(self.current.len() as int)
    }

    /// Whether a node has a key afterwards.
    pub open spec fn has_key_after(self, node_id: NodeId) -> bool {
        match self.event(node_id as int) {
            Some(GpuKeyEvent::Added(..)) => true,
            Some(GpuKeyEvent::Changed(..)) => true,
            Some(GpuKeyEvent::Removed(..)) => false,
            None => self.keys.contains_key(node_id),
        }
    }

    /// The key of a node afterwards.
    pub open spec fn key_after(self, node_id: NodeId) -> K {
        match self.event(node_id as int) {
            Some(GpuKeyEvent::Added(_, key, _)) => key,
            _ => self.keys[node_id],
        }
    }

    /// The keys afterwards: those of added nodes are new, those of removed nodes are
    /// gone, and all others are as before.
    pub open spec fn keys_after(self) -> Map<NodeId, K> {
        Map::new(
            |node_id: NodeId| self.has_key_after(node_id),
            |node_id: NodeId| self.key_after(node_id),
        )
    }

    /// Whether a node has a value afterwards.
    pub open spec fn has_value_after(self, node_id: NodeId) -> bool {
        match self.event(node_id as int) {
            Some(GpuKeyEvent::Added(..)) => true,
            Some(GpuKeyEvent::Changed(..)) => true,
            Some(GpuKeyEvent::Removed(..)) => false,
            None => self.values.contains_key(node_id),
        }
    }

    /// The value of a node afterwards.
    pub open spec fn value_after(self, node_id: NodeId) -> V {
        match self.event(node_id as int) {
            Some(GpuKeyEvent::Added(_, _, new)) => new,
            Some(GpuKeyEvent::Changed(_, _, _, new)) => new,
            _ => self.values[node_id],
        }
    }

    /// The values afterwards: those of added and changed nodes are what the document
    /// says, those of removed nodes are gone, and all others are as before.
    pub open spec fn values_after(self) -> Map<NodeId, V> {
        Map::new(
            |node_id: NodeId| self.has_value_after(node_id),
            |node_id: NodeId| self.value_after(node_id),
        )
    }

    /// The id of the next key afterwards.
    pub open spec fn next_after(self) -> usize {
        nth_id(self.next, self.added_before(self.current.len() as int))
    }
}

/// Brings the keys and the values of the nodes up to date with the document.
pub(crate) fn synchronize_values<K: UniqueKey, V: Copy>(
    keys: &mut BTreeMap<NodeId, K>,
    values: &mut BTreeMap<NodeId, V>,
    current: &Vec<Option<Option<V>>>,
    source: &mut KeySource,
) -> (events: Vec<GpuKeyEvent<K, V>>)
    ensures
        ({
            let s = Synchronization {
                keys: old(keys)@,
                values: old(values)@,
                current: current@,
                next: old(source).next,
            };
            &&& events@ == s.events()
            &&& final(keys)@ == s.keys_after()
            &&& final(values)@ == s.values_after()
            &&& final(source).next == s.next_after()
        }),
{
    let ghost s = Synchronization {
        keys: keys@,
        values: values@,
        current: current@,
        next: source.next,
    };
    proof {
        lemma_nth_id_step(s.next, 0);
    }
    let mut events: Vec<GpuKeyEvent<K, V>> = Vec::new();
    let mut i: usize = 0;
    while i < current.len()
        invariant
            i <= current.len(),
            s.current == current@,
            events@ == s.events_before(i as int),
            source.next == nth_id(s.next, s.added_before(i as int)),
            forall|k: NodeId|
                #![trigger keys@.contains_key(k)]
                #![trigger keys@[k]]
                if k < i {
                    keys@.contains_key(k) == s.has_key_after(k) && (keys@.contains_key(k)
                        ==> keys@[k] == s.key_after(k))
                } else {
                    keys@.contains_key(k) == s.keys.contains_key(k) && (keys@.contains_key(k)
                        ==> keys@[k] == s.keys[k])
                },
            forall|k: NodeId|
                #![trigger values@.contains_key(k)]
                #![trigger values@[k]]
                if k < i {
                    values@.contains_key(k) == s.has_value_after(k) && (values@.contains_key(k)
                        ==> values@[k] == s.value_after(k))
                } else {
                    values@.contains_key(k) == s.values.contains_key(k) && (values@.contains_key(k)
                        ==> values@[k] == s.values[k])
                },
        decreases current.len() - i,
    {
        let existing: Option<V> = match values.get(&i) {
            Some(v) => Some(*v),
            None => None,
        };
        let existing_key: Option<K> = match keys.get(&i) {
            Some(k) => Some(*k),
            None => None,
        };
        match current[i] {
            None => {},
            Some(now) => match (existing, now) {
                (None, None) => {},
                (None, Some(new)) => {
                    let key: K = source.unique();
                    events.push(GpuKeyEvent::Added(i, key, new));
                    keys.insert(i, key);
                    values.insert(i, new);
                },
                (Some(old_value), Some(new)) => {
                    if let Some(key) = existing_key {
                        events.push(GpuKeyEvent::Changed(i, key, old_value, new));
                        values.insert(i, new);
                    }
                },
                (Some(_), None) => {
                    if let Some(key) = existing_key {
                        events.push(GpuKeyEvent::Removed(i, key));
                        keys.remove(&i);
                        values.remove(&i);
                    }
                },
            },
        }
        proof {
            lemma_nth_id_step(s.next, s.added_before(i as int));
        }
        i += 1;
    }
    assert(keys@ =~= s.keys_after());
    assert(values@ =~= s.values_after());
    events
}

/// Whether the transform of a node is set to an exact value.
pub open spec fn has_exact_transform<S>(node: StyledNode<S>) -> bool {
    node.transform matches Some(CssPropertyValue::Exact(_))
}

/// What the document says of the transform of a node whose rectangle has the given
/// size.
pub open spec fn current_transform<S: Scalar>(
    node: StyledNode<S>,
    size: LogicalSize<S>,
    cpu: CpuFeatures,
) -> Option<Option<ComputedTransform3D<S>>> {
    match node.transform {
        None => None,
        Some(CssPropertyValue::Exact(t)) => Some(
            Some(
                ComputedTransform3D::spec_from_style_transform_vec(
                    t@,
                    node.origin(),
                    size.width,
                    size.height,
                    RotationMode::ForWebRender,
                    cpu,
                ),
            ),
        ),
        Some(_) => Some(None),
    }
}

/// What the document says of the transform of each node.
pub open spec fn current_transforms<S: Scalar>(
    nodes: Seq<StyledNode<S>>,
    rects: Seq<PositionedRectangle<S>>,
    cpu: CpuFeatures,
) -> Seq<Option<Option<ComputedTransform3D<S>>>> {
    Seq::new(nodes.len(), |i: int| current_transform(nodes[i], rects[i].size, cpu))
}

/// What the document says of the opacity of each node.
pub open spec fn current_opacities<S: Scalar>(nodes: Seq<StyledNode<S>>) -> Seq<
    Option<Option<S>>,
> {
    Seq::new(
        nodes.len(),
        |i: int|
            match nodes[i].opacity {
                None => None,
                Some(value) => Some(value.property()),
            },
    )
}

fn compute_transform<S: Scalar>(
    nodes: &Vec<StyledNode<S>>,
    positioned_rects: &[PositionedRectangle<S>],
    cpu: CpuFeatures,
    i: usize,
) -> (r: Option<Option<ComputedTransform3D<S>>>)
    requires
        i < nodes.len(),
        has_exact_transform(nodes@[i as int]) ==> i < positioned_rects.len(),
    ensures
        r == current_transform(nodes@[i as int], positioned_rects@[i as int].size, cpu),
{
    let node: &StyledNode<S> = &nodes[i];
    match &node.transform {
        None => None,
        Some(value) => match value.get_property() {
            None => Some(None),
            Some(t) => {
                let parent_size: LogicalSize<S> = positioned_rects[i].size;
                let transform_origin: StyleTransformOrigin<S> = node.get_origin();
                Some(
                    Some(
                        ComputedTransform3D::from_style_transform_vec(
                            t.as_slice(),
                            &transform_origin,
                            parent_size.width,
                            parent_size.height,
                            RotationMode::ForWebRender,
                            cpu,
                        ),
                    ),
                )
            },
        },
    }
}

fn compute_opacity<S: Scalar>(nodes: &Vec<StyledNode<S>>, i: usize) -> (r: Option<Option<S>>)
    requires
        i < nodes.len(),
    ensures
        r == current_opacities(nodes@)[i as int],
{
    match &nodes[i].opacity {
        None => None,
        Some(value) => match value.get_property() {
            None => Some(None),
            Some(opacity) => Some(Some(*opacity)),
        },
    }
}

impl<S: Scalar> GpuValueCache<S> {
    /// A node has a key if and only if it has a value.
    pub open spec fn wf(self) -> bool {
        &&& self.transform_keys@.dom() == self.current_transform_values@.dom()
        &&& self.opacity_keys@.dom() == self.current_opacity_values@.dom()
    }

    /// The cache without any node.
    pub open spec fn is_empty(self) -> bool {
        &&& self.transform_keys@ == Map::<NodeId, TransformKey>::empty()
        &&& self.current_transform_values@ == Map::<NodeId, ComputedTransform3D<S>>::empty()
        &&& self.opacity_keys@ == Map::<NodeId, OpacityKey>::empty()
        &&& self.current_opacity_values@ == Map::<NodeId, S>::empty()
    }

    pub fn empty() -> (r: Self)
        ensures
            r.is_empty(),
            r.wf(),
    {
        GpuValueCache {
            transform_keys: BTreeMap::new(),
            current_transform_values: BTreeMap::new(),
            opacity_keys: BTreeMap::new(),
            current_opacity_values: BTreeMap::new(),
        }
    }

    /// The synchronization of the transforms with a document.
    pub open spec fn transform_synchronization(
        self,
        positioned_rects: Seq<PositionedRectangle<S>>,
        styled_dom: StyledDom<S>,
        cpu: CpuFeatures,
        source: KeySource,
    ) -> Synchronization<TransformKey, ComputedTransform3D<S>> {
        Synchronization {
            keys: self.transform_keys@,
            values: self.current_transform_values@,
            current: current_transforms(
                styled_dom.node_data@,
                positioned_rects,
                cpu,
            ),
            next: source.next,
        }
    }

    /// The synchronization of the opacities with a document.
    pub open spec fn opacity_synchronization(
        self,
        styled_dom: StyledDom<S>,
        source: KeySource,
    ) -> Synchronization<OpacityKey, S> {
        Synchronization {
            keys: self.opacity_keys@,
            values: self.current_opacity_values@,
            current: current_opacities(styled_dom.node_data@),
            next: source.next,
        }
    }

    /// Brings the cache up to date with the document and returns what changed.
    ///
    /// The transforms and the opacities of the nodes are computed in parallel;
    /// `cpu` selects how the matrices are multiplied. New keys are taken from
    /// `key_sources`.
    #[must_use]
    pub fn synchronize(
        &mut self,
        positioned_rects: &[PositionedRectangle<S>],
        styled_dom: &StyledDom<S>,
        cpu: CpuFeatures,
        key_sources: &mut KeySources,
    ) -> (r: GpuEventChanges<S>)
        requires
            forall|i: int|
                0 <= i < styled_dom.node_data@.len() && has_exact_transform(
                    #[trigger] styled_dom.node_data@[i],
                ) ==> i < positioned_rects@.len(),
        ensures
            ({
                let t = old(self).transform_synchronization(
                    positioned_rects@,
                    *styled_dom,
                    cpu,
                    old(key_sources).transform,
                );
                &&& r.transform_key_changes@ == t.events()
                &&& final(self).transform_keys@ == t.keys_after()
                &&& final(self).current_transform_values@ == t.values_after()
                &&& final(key_sources).transform.next == t.next_after()
            }),
            ({
                let o = old(self).opacity_synchronization(*styled_dom, old(key_sources).opacity);
                &&& r.opacity_key_changes@ == o.events()
                &&& final(self).opacity_keys@ == o.keys_after()
                &&& final(self).current_opacity_values@ == o.values_after()
                &&& final(key_sources).opacity.next == o.next_after()
            }),
            old(self).wf() ==> final(self).wf(),
            old(self).wf() ==> forall|n: NodeId|
                n < styled_dom.node_data@.len() ==> match (#[trigger] styled_dom.node_data@[n as int
                ]).opacity {
                    Some(CssPropertyValue::Exact(opacity)) => {
                        &&& final(self).current_opacity_values@.contains_key(n)
                        &&& final(self).current_opacity_values@[n] == opacity
                    },
                    Some(_) => !final(self).current_opacity_values@.contains_key(n),
                    None => final(self).current_opacity_values@.contains_key(n) == old(
                        self,
                    ).current_opacity_values@.contains_key(n),
                },
            old(self).wf() ==> forall|n: NodeId|
                n < styled_dom.node_data@.len() ==> match (#[trigger] styled_dom.node_data@[n as int
                ]).transform {
                    Some(CssPropertyValue::Exact(_)) =>
                    final(self).current_transform_values@.contains_key(n),
                    Some(_) => !final(self).current_transform_values@.contains_key(n),
                    None => final(self).current_transform_values@.contains_key(n) == old(
                        self,
                    ).current_transform_values@.contains_key(n),
                },
    {
        let nodes: &Vec<StyledNode<S>> = &styled_dom.node_data;
        // the transform of every single node that has one
        let transform_of = |i: usize| -> (o: Option<Option<ComputedTransform3D<S>>>)
            requires
                i < nodes@.len(),
                has_exact_transform(nodes@[i as int]) ==> i < positioned_rects@.len(),
            ensures
                o == current_transform(
                    nodes@[i as int],
                    positioned_rects@[i as int].size,
                    cpu,
                ),
        {
            compute_transform(nodes, positioned_rects, cpu, i)
        };
        let transforms: Vec<Option<Option<ComputedTransform3D<S>>>> = map_indices(
            nodes.len(),
            transform_of,
        );
        proof {
            let spec_transforms = current_transforms(
                nodes@,
                positioned_rects@,
                cpu,
            );
            assert forall|i: int| 0 <= i < nodes.len() implies transforms@[i]
                == spec_transforms[i] by {
                let k: usize = i as usize;
                assert(transforms@[k as int] == spec_transforms[i]);
            }
            assert(transforms@ =~= spec_transforms);
        }
        let transform_key_changes: Vec<GpuTransformKeyEvent<S>> = synchronize_values(
            &mut self.transform_keys,
            &mut self.current_transform_values,
            &transforms,
            &mut key_sources.transform,
        );

        // the opacity of every single node that has one
        let opacity_of = |i: usize| -> (o: Option<Option<S>>)
            requires
                i < nodes@.len(),
            ensures
                o == current_opacities(nodes@)[i as int],
        {
            compute_opacity(nodes, i)
        };
        let opacities: Vec<Option<Option<S>>> = map_indices(nodes.len(), opacity_of);
        proof {
            assert forall|i: int| 0 <= i < nodes.len() implies opacities@[i] == current_opacities(
                nodes@,
            )[i] by {
                let k: usize = i as usize;
                assert(opacities@[k as int] == current_opacities(nodes@)[i]);
            }
            assert(opacities@ =~= current_opacities(nodes@));
        }
        let opacity_key_changes: Vec<GpuOpacityKeyEvent<S>> = synchronize_values(
            &mut self.opacity_keys,
            &mut self.current_opacity_values,
            &opacities,
            &mut key_sources.opacity,
        );
        proof {
            if old(self).wf() {
                assert(self.transform_keys@.dom() =~= self.current_transform_values@.dom());
                assert(self.opacity_keys@.dom() =~= self.current_opacity_values@.dom());
                assert forall|n: NodeId| n < nodes@.len() implies old(
                    self,
                ).opacity_keys@.contains_key(n) == #[trigger] old(
                    self,
                ).current_opacity_values@.contains_key(n) by {
                    assert(old(self).opacity_keys@.dom().contains(n) == old(
                        self,
                    ).current_opacity_values@.dom().contains(n));
                }
                assert forall|n: NodeId| n < nodes@.len() implies old(
                    self,
                ).transform_keys@.contains_key(n) == #[trigger] old(
                    self,
                ).current_transform_values@.contains_key(n) by {
                    assert(old(self).transform_keys@.dom().contains(n) == old(
                        self,
                    ).current_transform_values@.dom().contains(n));
                }
            }
        }
        GpuEventChanges { transform_key_changes, opacity_key_changes }
    }
}

impl<S: Scalar> Default for GpuValueCache<S> {
    fn default() -> (r: Self)
        ensures
            r.is_empty(),
            r.wf(),
    {
        Self::empty()
    }
}

} // verus!
