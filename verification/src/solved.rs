//! The widths and heights of rectangles while they are being solved.
use crate::constraint::WhConstraint;
use crate::scalar::Scalar;
use crate::style::{
    property_pixels, resolve_property, CssPropertyValue, LayoutBoxSizing, Length,
};
use vstd::prelude::*;

verus! {

/// What the solver knows of the width of a rectangle.
#[derive(Debug, Clone, Copy, PartialEq)]
pub struct WidthCalculatedRect<S> {
    pub preferred_width: WhConstraint<S>,
    pub margin_left: Option<CssPropertyValue<Length<S>>>,
    pub margin_right: Option<CssPropertyValue<Length<S>>>,
    pub padding_left: Option<CssPropertyValue<Length<S>>>,
    pub padding_right: Option<CssPropertyValue<Length<S>>>,
    pub border_left: Option<CssPropertyValue<Length<S>>>,
    pub border_right: Option<CssPropertyValue<Length<S>>>,
    pub left: Option<CssPropertyValue<Length<S>>>,
    pub right: Option<CssPropertyValue<Length<S>>>,
    pub box_sizing: LayoutBoxSizing,
    pub flex_grow_px: S,
    pub min_inner_size_px: S,
}

/// The width of a rectangle after the solver has run.
#[derive(Debug, Clone, Copy, PartialEq)]
pub struct WidthSolvedResult<S> {
    pub min_width: S,
    pub space_added: S,
}

impl<S: Scalar> Default for WidthCalculatedRect<S> {
    fn default() -> (r: Self)
        ensures
            r == (WidthCalculatedRect::<S> {
                preferred_width: WhConstraint::Unconstrained,
                margin_left: None,
                margin_right: None,
                padding_left: None,
                padding_right: None,
                border_left: None,
                border_right: None,
                left: None,
                right: None,
                box_sizing: LayoutBoxSizing::ContentBox,
                flex_grow_px: S::spec_zero(),
                min_inner_size_px: S::spec_zero(),
            }),
    {
        WidthCalculatedRect {
            preferred_width: WhConstraint::default(),
            margin_left: None,
            margin_right: None,
            padding_left: None,
            padding_right: None,
            border_left: None,
            border_right: None,
            left: None,
            right: None,
            box_sizing: LayoutBoxSizing::default(),
            flex_grow_px: S::zero(),
            min_inner_size_px: S::zero(),
        }
    }
}

impl<S: Scalar> WidthCalculatedRect<S> {
    pub open spec fn spec_get_border_left(self, percent_resolve: S) -> S {
        property_pixels(self.border_left, percent_resolve)
    }

    /// The width of the left border, or 0 where none is set.
    pub fn get_border_left(&self, percent_resolve: S) -> (r: S)
        ensures
            r == self.spec_get_border_left(percent_resolve),
    {
        resolve_property(&self.border_left, percent_resolve)
    }

    pub open spec fn spec_get_border_right(self, percent_resolve: S) -> S {
        property_pixels(self.border_right, percent_resolve)
    }

    /// The width of the right border, or 0 where none is set.
    pub fn get_border_right(&self, percent_resolve: S) -> (r: S)
        ensures
            r == self.spec_get_border_right(percent_resolve),
    {
        resolve_property(&self.border_right, percent_resolve)
    }

    pub open spec fn spec_get_raw_padding_left(self, percent_resolve: S) -> S {
        property_pixels(self.padding_left, percent_resolve)
    }

    /// The left padding without the border, or 0 where none is set.
    pub fn get_raw_padding_left(&self, percent_resolve: S) -> (r: S)
        ensures
            r == self.spec_get_raw_padding_left(percent_resolve),
    {
        resolve_property(&self.padding_left, percent_resolve)
    }

    pub open spec fn spec_get_raw_padding_right(self, percent_resolve: S) -> S {
        property_pixels(self.padding_right, percent_resolve)
    }

    /// The right padding without the border, or 0 where none is set.
    pub fn get_raw_padding_right(&self, percent_resolve: S) -> (r: S)
        ensures
            r == self.spec_get_raw_padding_right(percent_resolve),
    {
        resolve_property(&self.padding_right, percent_resolve)
    }

    pub open spec fn spec_get_padding_left(self, percent_resolve: S) -> S {
        self.spec_get_raw_padding_left(percent_resolve).spec_plus(
            self.spec_get_border_left(percent_resolve),
        )
    }

    /// The left padding with the border.
    pub fn get_padding_left(&self, percent_resolve: S) -> (r: S)
        ensures
            r == self.spec_get_padding_left(percent_resolve),
    {
        self.get_raw_padding_left(percent_resolve).plus(self.get_border_left(percent_resolve))
    }

    pub open spec fn spec_get_padding_right(self, percent_resolve: S) -> S {
        self.spec_get_raw_padding_right(percent_resolve).spec_plus(
            self.spec_get_border_right(percent_resolve),
        )
    }

    /// The right padding with the border.
    pub fn get_padding_right(&self, percent_resolve: S) -> (r: S)
        ensures
            r == self.spec_get_padding_right(percent_resolve),
    {
        self.get_raw_padding_right(percent_resolve).plus(self.get_border_right(percent_resolve))
    }

    pub open spec fn spec_get_margin_left(self, percent_resolve: S) -> S {
        property_pixels(self.margin_left, percent_resolve)
    }

    /// The left margin, or 0 where none is set.
    pub fn get_margin_left(&self, percent_resolve: S) -> (r: S)
        ensures
            r == self.spec_get_margin_left(percent_resolve),
    {
        resolve_property(&self.margin_left, percent_resolve)
    }

    pub open spec fn spec_get_margin_right(self, percent_resolve: S) -> S {
        property_pixels(self.margin_right, percent_resolve)
    }

    /// The right margin, or 0 where none is set.
    pub fn get_margin_right(&self, percent_resolve: S) -> (r: S)
        ensures
            r == self.spec_get_margin_right(percent_resolve),
    {
        resolve_property(&self.margin_right, percent_resolve)
    }

    pub open spec fn spec_get_flex_basis_horizontal(self, parent_width: S) -> S {
        self.min_inner_size_px.spec_plus(
            self.spec_get_margin_left(parent_width),
        ).spec_plus(
            self.spec_get_margin_right(parent_width),
        ).spec_plus(
            self.spec_get_raw_padding_left(parent_width),
        ).spec_plus(
            self.spec_get_raw_padding_right(parent_width),
        ).spec_plus(
            self.spec_get_border_left(parent_width),
        ).spec_plus(
            self.spec_get_border_right(parent_width),
        )
    }

    /// Get the flex basis in the horizontal direction.
    pub fn get_flex_basis_horizontal(&self, parent_width: S) -> (r: S)
        ensures
            r == self.spec_get_flex_basis_horizontal(parent_width),
    {
        self.min_inner_size_px
            .plus(self.get_margin_left(parent_width))
            .plus(self.get_margin_right(parent_width))
            .plus(self.get_raw_padding_left(parent_width))
            .plus(self.get_raw_padding_right(parent_width))
            .plus(self.get_border_left(parent_width))
            .plus(self.get_border_right(parent_width))
    }

    pub open spec fn spec_get_horizontal_border(self, parent_width: S) -> S {
        self.spec_get_border_left(parent_width).spec_plus(self.spec_get_border_right(parent_width))
    }

    /// Get the sum of the horizontal border widths.
    pub fn get_horizontal_border(&self, parent_width: S) -> (r: S)
        ensures
            r == self.spec_get_horizontal_border(parent_width),
    {
        self.get_border_left(parent_width).plus(self.get_border_right(parent_width))
    }

    pub open spec fn spec_get_horizontal_padding(self, parent_width: S) -> S {
        self.spec_get_padding_left(parent_width).spec_plus(
            self.spec_get_padding_right(parent_width),
        )
    }

    /// Get the sum of the horizontal padding amounts, each with its border.
    pub fn get_horizontal_padding(&self, parent_width: S) -> (r: S)
        ensures
            r == self.spec_get_horizontal_padding(parent_width),
    {
        self.get_padding_left(parent_width).plus(self.get_padding_right(parent_width))
    }

    pub open spec fn spec_get_horizontal_margin(self, parent_width: S) -> S {
        self.spec_get_margin_left(parent_width).spec_plus(self.spec_get_margin_right(parent_width))
    }

    /// Get the sum of the horizontal margin amounts.
    pub fn get_horizontal_margin(&self, parent_width: S) -> (r: S)
        ensures
            r == self.spec_get_horizontal_margin(parent_width),
    {
        self.get_margin_left(parent_width).plus(self.get_margin_right(parent_width))
    }

    pub open spec fn spec_total(self) -> S {
        self.min_inner_size_px.spec_plus(self.flex_grow_px)
    }

    /// Called after solver has run: solved width of the rectangle.
    pub fn total(&self) -> (r: S)
        ensures
            r == self.spec_total(),
    {
        self.min_inner_size_px.plus(self.flex_grow_px)
    }

    /// Called after solver has run: the parts of the solved width of the rectangle.
    pub fn solved_result(&self) -> (r: WidthSolvedResult<S>)
        ensures
            r == (WidthSolvedResult {
                min_width: self.min_inner_size_px,
                space_added: self.flex_grow_px,
            }),
            r.min_width.spec_plus(r.space_added) == self.spec_total(),
    {
        WidthSolvedResult { min_width: self.min_inner_size_px, space_added: self.flex_grow_px }
    }
}

/// What the solver knows of the height of a rectangle.
#[derive(Debug, Clone, Copy, PartialEq)]
pub struct HeightCalculatedRect<S> {
    pub preferred_height: WhConstraint<S>,
    pub margin_top: Option<CssPropertyValue<Length<S>>>,
    pub margin_bottom: Option<CssPropertyValue<Length<S>>>,
    pub padding_top: Option<CssPropertyValue<Length<S>>>,
    pub padding_bottom: Option<CssPropertyValue<Length<S>>>,
    pub border_top: Option<CssPropertyValue<Length<S>>>,
    pub border_bottom: Option<CssPropertyValue<Length<S>>>,
    pub top: Option<CssPropertyValue<Length<S>>>,
    pub bottom: Option<CssPropertyValue<Length<S>>>,
    pub box_sizing: LayoutBoxSizing,
    pub flex_grow_px: S,
    pub min_inner_size_px: S,
}

/// The height of a rectangle after the solver has run.
#[derive(Debug, Clone, Copy, PartialEq)]
pub struct HeightSolvedResult<S> {
    pub min_height: S,
    pub space_added: S,
}

impl<S: Scalar> Default for HeightCalculatedRect<S> {
    fn default() -> (r: Self)
        ensures
            r == (HeightCalculatedRect::<S> {
                preferred_height: WhConstraint::Unconstrained,
                margin_top: None,
                margin_bottom: None,
                padding_top: None,
                padding_bottom: None,
                border_top: None,
                border_bottom: None,
                top: None,
                bottom: None,
                box_sizing: LayoutBoxSizing::ContentBox,
                flex_grow_px: S::spec_zero(),
                min_inner_size_px: S::spec_zero(),
            }),
    {
        HeightCalculatedRect {
            preferred_height: WhConstraint::default(),
            margin_top: None,
            margin_bottom: None,
            padding_top: None,
            padding_bottom: None,
            border_top: None,
            border_bottom: None,
            top: None,
            bottom: None,
            box_sizing: LayoutBoxSizing::default(),
            flex_grow_px: S::zero(),
            min_inner_size_px: S::zero(),
        }
    }
}

impl<S: Scalar> HeightCalculatedRect<S> {
    pub open spec fn spec_get_border_top(self, percent_resolve: S) -> S {
        property_pixels(self.border_top, percent_resolve)
    }

    /// The width of the top border, or 0 where none is set.
    pub fn get_border_top(&self, percent_resolve: S) -> (r: S)
        ensures
            r == self.spec_get_border_top(percent_resolve),
    {
        resolve_property(&self.border_top, percent_resolve)
    }

    pub open spec fn spec_get_border_bottom(self, percent_resolve: S) -> S {
        property_pixels(self.border_bottom, percent_resolve)
    }

    /// The width of the bottom border, or 0 where none is set.
    pub fn get_border_bottom(&self, percent_resolve: S) -> (r: S)
        ensures
            r == self.spec_get_border_bottom(percent_resolve),
    {
        resolve_property(&self.border_bottom, percent_resolve)
    }

    pub open spec fn spec_get_raw_padding_top(self, percent_resolve: S) -> S {
        property_pixels(self.padding_top, percent_resolve)
    }

    /// The top padding without the border, or 0 where none is set.
    pub fn get_raw_padding_top(&self, percent_resolve: S) -> (r: S)
        ensures
            r == self.spec_get_raw_padding_top(percent_resolve),
    {
        resolve_property(&self.padding_top, percent_resolve)
    }

    pub open spec fn spec_get_raw_padding_bottom(self, percent_resolve: S) -> S {
        property_pixels(self.padding_bottom, percent_resolve)
    }

    /// The bottom padding without the border, or 0 where none is set.
    pub fn get_raw_padding_bottom(&self, percent_resolve: S) -> (r: S)
        ensures
            r == self.spec_get_raw_padding_bottom(percent_resolve),
    {
        resolve_property(&self.padding_bottom, percent_resolve)
    }

    pub open spec fn spec_get_padding_top(self, percent_resolve: S) -> S {
        self.spec_get_raw_padding_top(percent_resolve).spec_plus(
            self.spec_get_border_top(percent_resolve),
        )
    }

    /// The top padding with the border.
    pub fn get_padding_top(&self, percent_resolve: S) -> (r: S)
        ensures
            r == self.spec_get_padding_top(percent_resolve),
    {
        self.get_raw_padding_top(percent_resolve).plus(self.get_border_top(percent_resolve))
    }

    pub open spec fn spec_get_padding_bottom(self, percent_resolve: S) -> S {
        self.spec_get_raw_padding_bottom(percent_resolve).spec_plus(
            self.spec_get_border_bottom(percent_resolve),
        )
    }

    /// The bottom padding with the border.
    pub fn get_padding_bottom(&self, percent_resolve: S) -> (r: S)
        ensures
            r == self.spec_get_padding_bottom(percent_resolve),
    {
        self.get_raw_padding_bottom(percent_resolve).plus(self.get_border_bottom(percent_resolve))
    }

    pub open spec fn spec_get_margin_top(self, percent_resolve: S) -> S {
        property_pixels(self.margin_top, percent_resolve)
    }

    /// The top margin, or 0 where none is set.
    pub fn get_margin_top(&self, percent_resolve: S) -> (r: S)
        ensures
            r == self.spec_get_margin_top(percent_resolve),
    {
        resolve_property(&self.margin_top, percent_resolve)
    }

    pub open spec fn spec_get_margin_bottom(self, percent_resolve: S) -> S {
        property_pixels(self.margin_bottom, percent_resolve)
    }

    /// The bottom margin, or 0 where none is set.
    pub fn get_margin_bottom(&self, percent_resolve: S) -> (r: S)
        ensures
            r == self.spec_get_margin_bottom(percent_resolve),
    {
        resolve_property(&self.margin_bottom, percent_resolve)
    }

    pub open spec fn spec_get_flex_basis_vertical(self, parent_height: S) -> S {
        self.min_inner_size_px.spec_plus(
            self.spec_get_margin_top(parent_height),
        ).spec_plus(
            self.spec_get_margin_bottom(parent_height),
        ).spec_plus(
            self.spec_get_raw_padding_top(parent_height),
        ).spec_plus(
            self.spec_get_raw_padding_bottom(parent_height),
        ).spec_plus(
            self.spec_get_border_top(parent_height),
        ).spec_plus(
            self.spec_get_border_bottom(parent_height),
        )
    }

    /// Get the flex basis in the vertical direction.
    pub fn get_flex_basis_vertical(&self, parent_height: S) -> (r: S)
        ensures
            r == self.spec_get_flex_basis_vertical(parent_height),
    {
        self.min_inner_size_px
            .plus(self.get_margin_top(parent_height))
            .plus(self.get_margin_bottom(parent_height))
            .plus(self.get_raw_padding_top(parent_height))
            .plus(self.get_raw_padding_bottom(parent_height))
            .plus(self.get_border_top(parent_height))
            .plus(self.get_border_bottom(parent_height))
    }

    pub open spec fn spec_get_vertical_border(self, parent_height: S) -> S {
        self.spec_get_border_top(parent_height).spec_plus(
            self.spec_get_border_bottom(parent_height),
        )
    }

    /// Get the sum of the vertical border widths.
    pub fn get_vertical_border(&self, parent_height: S) -> (r: S)
        ensures
            r == self.spec_get_vertical_border(parent_height),
    {
        self.get_border_top(parent_height).plus(self.get_border_bottom(parent_height))
    }

    pub open spec fn spec_get_vertical_padding(self, parent_height: S) -> S {
        self.spec_get_padding_top(parent_height).spec_plus(
            self.spec_get_padding_bottom(parent_height),
        )
    }

    /// Get the sum of the vertical padding amounts, each with its border.
    pub fn get_vertical_padding(&self, parent_height: S) -> (r: S)
        ensures
            r == self.spec_get_vertical_padding(parent_height),
    {
        self.get_padding_top(parent_height).plus(self.get_padding_bottom(parent_height))
    }

    pub open spec fn spec_get_vertical_margin(self, parent_height: S) -> S {
        self.spec_get_margin_top(parent_height).spec_plus(
            self.spec_get_margin_bottom(parent_height),
        )
    }

    /// Get the sum of the vertical margin amounts.
    pub fn get_vertical_margin(&self, parent_height: S) -> (r: S)
        ensures
            r == self.spec_get_vertical_margin(parent_height),
    {
        self.get_margin_top(parent_height).plus(self.get_margin_bottom(parent_height))
    }

    pub open spec fn spec_total(self) -> S {
        self.min_inner_size_px.spec_plus(self.flex_grow_px)
    }

    /// Called after solver has run: solved height of the rectangle.
    pub fn total(&self) -> (r: S)
        ensures
            r == self.spec_total(),
    {
        self.min_inner_size_px.plus(self.flex_grow_px)
    }

    /// Called after solver has run: the parts of the solved height of the rectangle.
    pub fn solved_result(&self) -> (r: HeightSolvedResult<S>)
        ensures
            r == (HeightSolvedResult {
                min_height: self.min_inner_size_px,
                space_added: self.flex_grow_px,
            }),
            r.min_height.spec_plus(r.space_added) == self.spec_total(),
    {
        HeightSolvedResult { min_height: self.min_inner_size_px, space_added: self.flex_grow_px }
    }
}

/// The solved x coordinate of a rectangle.
#[derive(Debug, Clone, Copy, PartialEq, PartialOrd)]
pub struct HorizontalSolvedPosition<S>(pub S);

/// The solved y coordinate of a rectangle.
#[derive(Debug, Clone, Copy, PartialEq, PartialOrd)]
pub struct VerticalSolvedPosition<S>(pub S);

} // verus!
