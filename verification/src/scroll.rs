//! Nodes whose content can be scrolled or is clipped.
use crate::dom::{AzNodeId, DomNodeHash, NodeId, PipelineId, ScrollTagId};
use crate::geometry::{LogicalRect, LogicalSize};
use crate::scalar::Scalar;
use std::collections::BTreeMap;
use vstd::prelude::*;

verus! {

/// The id by which the renderer knows a scroll frame.
#[derive(Debug, Clone, Copy, PartialEq, Eq, PartialOrd, Ord, Hash)]
pub struct ExternalScrollId(pub u64, pub PipelineId);

/// The decimal digit of a number below 10.
pub open spec fn digit(n: nat) -> char {
    (n + '0' as nat) as char
}

/// The decimal digits of a number, without leading zeros.
pub open spec fn decimal(n: nat) -> Seq<char>
    decreases n,
{
    if n < 10 {
        seq![digit(n)]
    } else {
        decimal(n / 10).push(digit(n % 10))
    }
}

fn append_digit(text: &mut String, n: u64)
    requires
        n < 10,
    ensures
        final(text)@ == old(text)@.push(digit(n as nat)),
{
    proof {
        reveal_strlit("0");
        reveal_strlit("1");
        reveal_strlit("2");
        reveal_strlit("3");
        reveal_strlit("4");
        reveal_strlit("5");
        reveal_strlit("6");
        reveal_strlit("7");
        reveal_strlit("8");
        reveal_strlit("9");
    }
    let name: &str = if n == 0 {
        "0"
    } else if n == 1 {
        "1"
    } else if n == 2 {
        "2"
    } else if n == 3 {
        "3"
    } else if n == 4 {
        "4"
    } else if n == 5 {
        "5"
    } else if n == 6 {
        "6"
    } else if n == 7 {
        "7"
    } else if n == 8 {
        "8"
    } else {
        "9"
    };
    assert(name@ =~= seq![digit(n as nat)]);
    text.append(name);
    assert(text@ =~= old(text)@.push(digit(n as nat)));
}

fn append_decimal(text: &mut String, n: u64)
    ensures
        final(text)@ == old(text)@ + decimal(n as nat),
    decreases n,
{
    if n < 10 {
        append_digit(text, n);
        assert(text@ =~= old(text)@ + decimal(n as nat));
    } else {
        append_decimal(text, n / 10);
        append_digit(text, n % 10);
        assert(text@ =~= old(text)@ + decimal(n as nat));
    }
}

impl ExternalScrollId {
    /// The id as it is displayed, for example `ExternalScrollId(7)`.
    pub fn to_display_string(&self) -> (r: String)
        ensures
            r@ == "ExternalScrollId("@ + decimal(self.0 as nat) + ")"@,
    {
        let mut text: String = String::new();
        text.append("ExternalScrollId(");
        append_decimal(&mut text, self.0);
        text.append(")");
        assert(text@ =~= "ExternalScrollId("@ + decimal(self.0 as nat) + ")"@);
        text
    }
}

/// The nodes that scroll or clip.
#[derive(Debug, Clone, PartialEq, PartialOrd)]
pub struct ScrolledNodes<S> {
    pub overflowing_nodes: BTreeMap<AzNodeId, OverflowingScrollNode<S>>,
    /// Nodes that need to clip their direct children (i.e. nodes with overflow-x and overflow-y set to "Hidden")
    pub clip_nodes: BTreeMap<NodeId, LogicalSize<S>>,
    pub tags_to_node_ids: BTreeMap<ScrollTagId, AzNodeId>,
}

impl<S: Scalar> Default for ScrolledNodes<S> {
    fn default() -> (r: Self)
        ensures
            r.overflowing_nodes@ == Map::<AzNodeId, OverflowingScrollNode<S>>::empty(),
            r.clip_nodes@ == Map::<NodeId, LogicalSize<S>>::empty(),
            r.tags_to_node_ids@ == Map::<ScrollTagId, AzNodeId>::empty(),
    {
        ScrolledNodes {
            overflowing_nodes: BTreeMap::new(),
            clip_nodes: BTreeMap::new(),
            tags_to_node_ids: BTreeMap::new(),
        }
    }
}

/// A node whose children overflow it.
#[derive(Debug, Clone, Copy, PartialEq, PartialOrd)]
pub struct OverflowingScrollNode<S> {
    pub parent_rect: LogicalRect<S>,
    pub child_rect: LogicalRect<S>,
    pub parent_external_scroll_id: ExternalScrollId,
    pub parent_dom_hash: DomNodeHash,
    pub scroll_tag_id: ScrollTagId,
}

} // verus!
