//! Points, sizes and rectangles, in logical units and in whole pixels.
use crate::scalar::Scalar;
use vstd::prelude::*;

verus! {

/// A point in logical (density independent) pixels.
#[derive(Debug, Clone, Copy, PartialEq, PartialOrd)]
pub struct LogicalPosition<S> {
    pub x: S,
    pub y: S,
}

impl<S: Scalar> LogicalPosition<S> {
    /// The point (0, 0).
    pub open spec fn spec_zero() -> Self {
        LogicalPosition { x: S::spec_zero(), y: S::spec_zero() }
    }

    /// The vector from `rhs` to `self`.
    pub open spec fn spec_minus(self, rhs: Self) -> Self {
        LogicalPosition { x: self.x.spec_minus(rhs.x), y: self.y.spec_minus(rhs.y) }
    }

    /// The point with both coordinates divided by `divisor`.
    pub open spec fn spec_over(self, divisor: S) -> Self {
        LogicalPosition { x: self.x.spec_over(divisor), y: self.y.spec_over(divisor) }
    }

    pub fn new(x: S, y: S) -> (r: Self)
        ensures
            r == (LogicalPosition { x, y }),
    {
        LogicalPosition { x, y }
    }

    pub fn zero() -> (r: Self)
        ensures
            r == Self::spec_zero(),
    {
        LogicalPosition { x: S::zero(), y: S::zero() }
    }

    /// Subtracts each coordinate of `rhs`.
    pub fn minus(self, rhs: Self) -> (r: Self)
        ensures
            r == self.spec_minus(rhs),
    {
        LogicalPosition { x: self.x.minus(rhs.x), y: self.y.minus(rhs.y) }
    }

    /// Divides both coordinates.
    pub fn over(self, divisor: S) -> (r: Self)
        ensures
            r == self.spec_over(divisor),
    {
        LogicalPosition { x: self.x.over(divisor), y: self.y.over(divisor) }
    }
}

/// A width and a height in logical pixels.
#[derive(Debug, Clone, Copy, PartialEq, PartialOrd)]
pub struct LogicalSize<S> {
    pub width: S,
    pub height: S,
}

impl<S: Scalar> LogicalSize<S> {
    /// The size (0, 0).
    pub open spec fn spec_zero() -> Self {
        LogicalSize { width: S::spec_zero(), height: S::spec_zero() }
    }

    pub fn new(width: S, height: S) -> (r: Self)
        ensures
            r == (LogicalSize { width, height }),
    {
        LogicalSize { width, height }
    }

    pub fn zero() -> (r: Self)
        ensures
            r == Self::spec_zero(),
    {
        LogicalSize { width: S::zero(), height: S::zero() }
    }
}

/// A rectangle, given by its top left corner and its size.
#[derive(Debug, Clone, Copy, PartialEq, PartialOrd)]
pub struct LogicalRect<S> {
    pub origin: LogicalPosition<S>,
    pub size: LogicalSize<S>,
}

impl<S: Scalar> LogicalRect<S> {
    pub fn new(origin: LogicalPosition<S>, size: LogicalSize<S>) -> (r: Self)
        ensures
            r == (LogicalRect { origin, size }),
    {
        LogicalRect { origin, size }
    }
}

/// A point in whole pixels.
#[derive(Debug, Clone, Copy, PartialEq, Eq, PartialOrd)]
pub struct LayoutPoint {
    pub x: isize,
    pub y: isize,
}

/// A width and a height in whole pixels.
#[derive(Debug, Clone, Copy, PartialEq, Eq, PartialOrd)]
pub struct LayoutSize {
    pub width: isize,
    pub height: isize,
}

/// A rectangle in whole pixels.
#[derive(Debug, Clone, Copy, PartialEq, Eq, PartialOrd)]
pub struct LayoutRect {
    pub origin: LayoutPoint,
    pub size: LayoutSize,
}

impl LayoutPoint {
    pub fn new(x: isize, y: isize) -> (r: Self)
        ensures
            r == (LayoutPoint { x, y }),
    {
        LayoutPoint { x, y }
    }
}

impl LayoutSize {
    pub fn new(width: isize, height: isize) -> (r: Self)
        ensures
            r == (LayoutSize { width, height }),
    {
        LayoutSize { width, height }
    }
}

impl LayoutRect {
    pub fn new(origin: LayoutPoint, size: LayoutSize) -> (r: Self)
        ensures
            r == (LayoutRect { origin, size }),
    {
        LayoutRect { origin, size }
    }
}

} // verus!
