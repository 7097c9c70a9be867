//! Identifiers of nodes and keys, and what the layout reads off a styled
//! document.
use crate::scalar::Scalar;
use crate::style::{CssPropertyValue, StyleTransform, StyleTransformOrigin};
use vstd::prelude::*;

verus! {

/// The index of a node in its document.
pub type NodeId = usize;

/// A node as it is written outside of the document.
pub type AzNodeId = usize;

/// The tag that scroll events of a node carry.
pub type ScrollTagId = u64;

/// The hash of a node and its content.
pub type DomNodeHash = u64;

/// A document in a tree of documents.
#[derive(Debug, Clone, Copy, PartialEq, Eq, PartialOrd, Ord, Hash)]
pub struct DomId {
    pub inner: usize,
}

/// The source of a display list and its number there.
#[derive(Debug, Clone, Copy, PartialEq, Eq, PartialOrd, Ord, Hash)]
pub struct PipelineId(pub u32, pub u32);

/// The key of a transform that is cached on the GPU.
#[derive(Debug, Clone, Copy, PartialEq, Eq, PartialOrd, Ord, Hash)]
pub struct TransformKey {
    pub id: usize,
}

/// The key of an opacity that is cached on the GPU.
#[derive(Debug, Clone, Copy, PartialEq, Eq, PartialOrd, Ord, Hash)]
pub struct OpacityKey {
    pub id: usize,
}

/// A counter that hands out the ids of keys.
#[derive(Debug, Clone, Copy, PartialEq, Eq)]
pub struct KeySource {
    pub next: usize,
}

/// The counters of all kinds of keys.
#[derive(Debug, Clone, Copy, PartialEq, Eq)]
pub struct KeySources {
    pub transform: KeySource,
    pub opacity: KeySource,
}

/// The `n`-th id after `next`. Ids start over at 0 after `usize::MAX`.
pub open spec fn nth_id(next: usize, n: nat) -> usize {
    ((next + n) % (usize::MAX + 1)) as usize
}

/// The id that follows the `n`-th one is the next after it.
pub proof fn lemma_nth_id_step(next: usize, n: nat)
    ensures
        nth_id(next, 0) == next,
        nth_id(nth_id(next, n), 1) == nth_id(next, n + 1),
{
    let m: int = usize::MAX + 1;
    vstd::arithmetic::div_mod::lemma_small_mod(next as nat, m as nat);
    vstd::arithmetic::div_mod::lemma_add_mod_noop(next + n as int, 1, m);
    vstd::arithmetic::div_mod::lemma_small_mod(1, m as nat);
    vstd::arithmetic::div_mod::lemma_mod_bound(next + n as int, m);
}

/// A key that stands for an id.
pub trait UniqueKey: Copy {
    spec fn spec_from_id(id: usize) -> Self;

    spec fn spec_id(self) -> usize;

    /// A key has the id that it was made from.
    proof fn lemma_id(id: usize)
        ensures
            Self::spec_from_id(id).spec_id() == id,
    ;

    fn from_id(id: usize) -> (r: Self)
        ensures
            r == Self::spec_from_id(id),
    ;
}

impl UniqueKey for TransformKey {
    open spec fn spec_from_id(id: usize) -> Self {
        TransformKey { id }
    }

    open spec fn spec_id(self) -> usize {
        self.id
    }

    proof fn lemma_id(id: usize) {
    }

    fn from_id(id: usize) -> (r: Self) {
        TransformKey { id }
    }
}

impl UniqueKey for OpacityKey {
    open spec fn spec_from_id(id: usize) -> Self {
        OpacityKey { id }
    }

    open spec fn spec_id(self) -> usize {
        self.id
    }

    proof fn lemma_id(id: usize) {
    }

    fn from_id(id: usize) -> (r: Self) {
        OpacityKey { id }
    }
}

impl KeySource {
    pub fn new() -> (r: Self)
        ensures
            r == (KeySource { next: 0 }),
    {
        KeySource { next: 0 }
    }

    /// Hands out the next key.
    pub fn unique<K: UniqueKey>(&mut self) -> (r: K)
        ensures
            r == K::spec_from_id(old(self).next),
            final(self).next == nth_id(old(self).next, 1),
    {
        let id: usize = self.next;
        self.next = id.wrapping_add(1);
        proof {
            let m: int = usize::MAX + 1;
            if id == usize::MAX {
                vstd::arithmetic::div_mod::lemma_mod_self_0(m);
            } else {
                vstd::arithmetic::div_mod::lemma_small_mod((id + 1) as nat, m as nat);
            }
        }
        K::from_id(id)
    }
}

/// The properties of a node that the layout reads. A property that is not set at
/// all is `None`.
#[derive(Debug, Clone, PartialEq)]
pub struct StyledNode<S> {
    pub transform: Option<CssPropertyValue<Vec<StyleTransform<S>>>>,
    pub transform_origin: Option<CssPropertyValue<StyleTransformOrigin<S>>>,
    /// 0 is transparent, 1 is opaque.
    pub opacity: Option<CssPropertyValue<S>>,
    /// The position in the order of the tab key, for nodes that can be focused.
    pub tab_index: Option<usize>,
}

/// A node that can be hit, with its ancestors from the root down.
#[derive(Debug, Clone, PartialEq)]
pub struct TagIdToNodeIdMapping {
    pub node_id: Option<NodeId>,
    pub parent_node_ids: Vec<Option<NodeId>>,
}

/// What the layout reads off a styled document.
#[derive(Debug, Clone, PartialEq)]
pub struct StyledDom<S> {
    pub root: Option<NodeId>,
    pub node_data: Vec<StyledNode<S>>,
    pub tag_ids_to_node_ids: Vec<TagIdToNodeIdMapping>,
}

impl<S: Scalar> StyledNode<S> {
    /// The origin of the transform, or the default one where none is set.
    pub open spec fn origin(self) -> StyleTransformOrigin<S> {
        match self.transform_origin {
            Some(CssPropertyValue::Exact(origin)) => origin,
            _ => StyleTransformOrigin::spec_default(),
        }
    }

    pub fn get_origin(&self) -> (r: StyleTransformOrigin<S>)
        ensures
            r == self.origin(),
    {
        match &self.transform_origin {
            Some(value) => match value.get_property() {
                Some(origin) => *origin,
                None => StyleTransformOrigin::default(),
            },
            None => StyleTransformOrigin::default(),
        }
    }
}

} // verus!
