//! Constraints on the width or the height of a rectangle.
use crate::scalar::Scalar;
use vstd::prelude::*;

verus! {

/// A constraint on a width or a height.
#[derive(Debug, Clone, Copy, PartialEq)]
pub enum WhConstraint<S> {
    /// between min, max
    Between(S, S),
    /// Value needs to be exactly X
    EqualTo(S),
    /// Value can be anything
    Unconstrained,
}

impl<S: Scalar> Default for WhConstraint<S> {
    fn default() -> (r: Self)
        ensures
            r == WhConstraint::<S>::Unconstrained,
    {
        WhConstraint::Unconstrained
    }
}

impl<S: Scalar> WhConstraint<S> {
    pub open spec fn spec_min_needed_space(self) -> Option<S> {
        match self {
            WhConstraint::Between(min, _) => Some(min),
            WhConstraint::EqualTo(exact) => Some(exact),
            WhConstraint::Unconstrained => Some(S::spec_zero()),
        }
    }

    pub open spec fn spec_max_available_space(self) -> Option<S> {
        match self {
            WhConstraint::Between(_, max) => Some(max),
            WhConstraint::EqualTo(exact) => Some(exact),
            WhConstraint::Unconstrained => None,
        }
    }

    pub open spec fn spec_calculate_from_relative_parent(self, relative_parent_width: S) -> S {
        match self {
            WhConstraint::EqualTo(exact) => exact,
            WhConstraint::Between(min, max) => relative_parent_width.spec_maximum(
                min,
            ).spec_minimum(max),
            WhConstraint::Unconstrained => relative_parent_width,
        }
    }

    /// Returns the minimum value or 0 on `Unconstrained`
    /// (warning: this might not be what you want).
    pub fn min_needed_space(&self) -> (r: Option<S>)
        ensures
            r == self.spec_min_needed_space(),
    {
        match self {
            WhConstraint::Between(min, _) => Some(*min),
            WhConstraint::EqualTo(exact) => Some(*exact),
            WhConstraint::Unconstrained => Some(S::zero()),
        }
    }

    /// Returns the maximum space until the constraint is violated - returns
    /// `None` if the constraint is unbounded.
    pub fn max_available_space(&self) -> (r: Option<S>)
        ensures
            r == self.spec_max_available_space(),
    {
        match self {
            WhConstraint::Between(_, max) => Some(*max),
            WhConstraint::EqualTo(exact) => Some(*exact),
            WhConstraint::Unconstrained => None,
        }
    }

    /// Returns if this `WhConstraint` is an `EqualTo` constraint.
    pub fn is_fixed_constraint(&self) -> (r: bool)
        ensures
            r == (self is EqualTo),
    {
        match self {
            WhConstraint::EqualTo(_) => true,
            _ => false,
        }
    }

    /// The width of an absolute positioned node, which takes that of its relative
    /// parent. The node might have a max-width constraint, which has a higher
    /// precedence than `top, bottom, left, right`.
    pub fn calculate_from_relative_parent(&self, relative_parent_width: S) -> (r: S)
        ensures
            r == self.spec_calculate_from_relative_parent(relative_parent_width),
    {
        match self {
            WhConstraint::EqualTo(e) => *e,
            WhConstraint::Between(min, max) => relative_parent_width.maximum(*min).minimum(*max),
            WhConstraint::Unconstrained => relative_parent_width,
        }
    }
}

} // verus!
