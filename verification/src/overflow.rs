//! How far the children of a node overflow it.
use vstd::prelude::*;

verus! {

/// The overflow of a node in both directions.
#[derive(Debug, Clone, PartialEq, PartialOrd)]
pub struct OverflowInfo {
    pub overflow_x: DirectionalOverflowInfo,
    pub overflow_y: DirectionalOverflowInfo,
}

impl Default for OverflowInfo {
    fn default() -> (r: Self)
        ensures
            r == (OverflowInfo {
                overflow_x: DirectionalOverflowInfo::Auto { amount: None },
                overflow_y: DirectionalOverflowInfo::Auto { amount: None },
            }),
    {
        OverflowInfo {
            overflow_x: DirectionalOverflowInfo::default(),
            overflow_y: DirectionalOverflowInfo::default(),
        }
    }
}

/// How much the children overflow the parent in one direction, under each
/// overflow mode.
///
/// If the amount is negative, the children do not overflow the parent. If it is
/// `None`, the node has no children, so that no overflow can be calculated.
#[derive(Debug, Clone, PartialEq, PartialOrd)]
pub enum DirectionalOverflowInfo {
    Scroll { amount: Option<isize> },
    Auto { amount: Option<isize> },
    Hidden { amount: Option<isize> },
    Visible { amount: Option<isize> },
}

impl Default for DirectionalOverflowInfo {
    fn default() -> (r: Self)
        ensures
            r == (DirectionalOverflowInfo::Auto { amount: None }),
    {
        DirectionalOverflowInfo::Auto { amount: None }
    }
}

impl DirectionalOverflowInfo {
    /// The amount, whatever the overflow mode.
    pub open spec fn amount(self) -> Option<isize> {
        match self {
            DirectionalOverflowInfo::Scroll { amount } => amount,
            DirectionalOverflowInfo::Auto { amount } => amount,
            DirectionalOverflowInfo::Hidden { amount } => amount,
            DirectionalOverflowInfo::Visible { amount } => amount,
        }
    }

    /// Whether the children do not overflow the parent.
    pub open spec fn spec_is_negative(self) -> bool {
        self.amount() matches Some(s) ==> s < 0
    }

    /// Whether no overflow can be calculated.
    pub open spec fn spec_is_none(self) -> bool {
        self.amount() is None
    }

    pub fn get_amount(&self) -> (r: Option<isize>)
        ensures
            r == self.amount(),
    {
        match self {
            DirectionalOverflowInfo::Scroll { amount: Some(s) } => Some(*s),
            DirectionalOverflowInfo::Auto { amount: Some(s) } => Some(*s),
            DirectionalOverflowInfo::Hidden { amount: Some(s) } => Some(*s),
            DirectionalOverflowInfo::Visible { amount: Some(s) } => Some(*s),
            _ => None,
        }
    }

    /// Whether the children do not overflow the parent. A node without children
    /// does not overflow, so it needs no scrollbar.
    pub fn is_negative(&self) -> (r: bool)
        ensures
            r == self.spec_is_negative(),
    {
        match self {
            DirectionalOverflowInfo::Scroll { amount: Some(s) } => *s < 0,
            DirectionalOverflowInfo::Auto { amount: Some(s) } => *s < 0,
            DirectionalOverflowInfo::Hidden { amount: Some(s) } => *s < 0,
            DirectionalOverflowInfo::Visible { amount: Some(s) } => *s < 0,
            _ => true,
        }
    }

    /// Whether no overflow can be calculated.
    pub fn is_none(&self) -> (r: bool)
        ensures
            r == self.spec_is_none(),
    {
        match self {
            DirectionalOverflowInfo::Scroll { amount: None } => true,
            DirectionalOverflowInfo::Auto { amount: None } => true,
            DirectionalOverflowInfo::Hidden { amount: None } => true,
            DirectionalOverflowInfo::Visible { amount: None } => true,
            _ => false,
        }
    }
}

} // verus!
