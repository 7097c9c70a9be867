//! Rectangles with their final position.
use crate::geometry::{LayoutPoint, LayoutRect, LayoutSize, LogicalPosition, LogicalSize};
use crate::scalar::Scalar;
use crate::style::{CssPropertyValue, LayoutBoxSizing, LayoutOverflow, StyleBoxShadow};
use crate::text::{InlineTextLayout, ResolvedTextLayoutOptions};
use vstd::prelude::*;

verus! {

/// Lengths on the four sides of a rectangle, in pixels.
#[derive(Debug, Clone, Copy, PartialEq, PartialOrd)]
pub struct ResolvedOffsets<S> {
    pub top: S,
    pub left: S,
    pub right: S,
    pub bottom: S,
}

impl<S: Scalar> ResolvedOffsets<S> {
    pub open spec fn spec_zero() -> Self {
        ResolvedOffsets {
            top: S::spec_zero(),
            left: S::spec_zero(),
            right: S::spec_zero(),
            bottom: S::spec_zero(),
        }
    }

    pub open spec fn spec_total_vertical(self) -> S {
        self.top.spec_plus(self.bottom)
    }

    pub open spec fn spec_total_horizontal(self) -> S {
        self.left.spec_plus(self.right)
    }

    pub fn zero() -> (r: Self)
        ensures
            r == Self::spec_zero(),
    {
        ResolvedOffsets { top: S::zero(), left: S::zero(), right: S::zero(), bottom: S::zero() }
    }

    pub fn total_vertical(&self) -> (r: S)
        ensures
            r == self.spec_total_vertical(),
    {
        self.top.plus(self.bottom)
    }

    pub fn total_horizontal(&self) -> (r: S)
        ensures
            r == self.spec_total_horizontal(),
    {
        self.left.plus(self.right)
    }
}

impl<S: Scalar> Default for ResolvedOffsets<S> {
    fn default() -> (r: Self)
        ensures
            r == Self::spec_zero(),
    {
        Self::zero()
    }
}

/// The shadows on the four sides of a rectangle.
#[derive(Debug, Clone, Copy, PartialEq, PartialOrd)]
pub struct StyleBoxShadowOffsets<S> {
    pub left: Option<CssPropertyValue<StyleBoxShadow<S>>>,
    pub right: Option<CssPropertyValue<StyleBoxShadow<S>>>,
    pub top: Option<CssPropertyValue<StyleBoxShadow<S>>>,
    pub bottom: Option<CssPropertyValue<StyleBoxShadow<S>>>,
}

impl<S: Scalar> StyleBoxShadowOffsets<S> {
    pub open spec fn spec_none() -> Self {
        StyleBoxShadowOffsets { left: None, right: None, top: None, bottom: None }
    }
}

impl<S: Scalar> Default for StyleBoxShadowOffsets<S> {
    fn default() -> (r: Self)
        ensures
            r == Self::spec_none(),
    {
        StyleBoxShadowOffsets { left: None, right: None, top: None, bottom: None }
    }
}

/// How a rectangle is positioned, with its offset from the rectangle that it is
/// positioned against and its offset in the window.
#[derive(Debug, Clone, Copy, PartialEq, PartialOrd)]
pub enum PositionInfo<S> {
    Static { x_offset: S, y_offset: S, static_x_offset: S, static_y_offset: S },
    Fixed { x_offset: S, y_offset: S, static_x_offset: S, static_y_offset: S },
    Absolute { x_offset: S, y_offset: S, static_x_offset: S, static_y_offset: S },
    Relative { x_offset: S, y_offset: S, static_x_offset: S, static_y_offset: S },
}

impl<S: Scalar> PositionInfo<S> {
    /// The offset from the rectangle that this one is positioned against.
    pub open spec fn relative_offset(self) -> (S, S) {
        match self {
            PositionInfo::Static { x_offset, y_offset, .. } => (x_offset, y_offset),
            PositionInfo::Fixed { x_offset, y_offset, .. } => (x_offset, y_offset),
            PositionInfo::Absolute { x_offset, y_offset, .. } => (x_offset, y_offset),
            PositionInfo::Relative { x_offset, y_offset, .. } => (x_offset, y_offset),
        }
    }

    /// The offset in the window.
    pub open spec fn static_offset(self) -> (S, S) {
        match self {
            PositionInfo::Static { static_x_offset, static_y_offset, .. } => (
                static_x_offset,
                static_y_offset,
            ),
            PositionInfo::Fixed { static_x_offset, static_y_offset, .. } => (
                static_x_offset,
                static_y_offset,
            ),
            PositionInfo::Absolute { static_x_offset, static_y_offset, .. } => (
                static_x_offset,
                static_y_offset,
            ),
            PositionInfo::Relative { static_x_offset, static_y_offset, .. } => (
                static_x_offset,
                static_y_offset,
            ),
        }
    }

    /// The same kind of position, with the relative offset `(x, y)` and the same
    /// offset in the window.
    pub open spec fn with_relative_offset(self, x: S, y: S) -> Self {
        match self {
            PositionInfo::Static { static_x_offset, static_y_offset, .. } => PositionInfo::Static {
                x_offset: x,
                y_offset: y,
                static_x_offset,
                static_y_offset,
            },
            PositionInfo::Fixed { static_x_offset, static_y_offset, .. } => PositionInfo::Fixed {
                x_offset: x,
                y_offset: y,
                static_x_offset,
                static_y_offset,
            },
            PositionInfo::Absolute { static_x_offset, static_y_offset, .. } =>
            PositionInfo::Absolute { x_offset: x, y_offset: y, static_x_offset, static_y_offset },
            PositionInfo::Relative { static_x_offset, static_y_offset, .. } =>
            PositionInfo::Relative { x_offset: x, y_offset: y, static_x_offset, static_y_offset },
        }
    }

    /// The keyword of the kind of position.
    pub open spec fn keyword(self) -> Seq<char> {
        match self {
            PositionInfo::Static { .. } => "static"@,
            PositionInfo::Fixed { .. } => "fixed"@,
            PositionInfo::Absolute { .. } => "absolute"@,
            PositionInfo::Relative { .. } => "relative"@,
        }
    }

    /// The position as it is shown for debugging, for example `static(3, 4)`, where
    /// `x_text` and `y_text` are the relative offset as it is displayed.
    pub fn to_debug_string(&self, x_text: &str, y_text: &str) -> (r: String)
        ensures
            r@ == self.keyword() + "("@ + x_text@ + ", "@ + y_text@ + ")"@,
    {
        let keyword: &str = match self {
            PositionInfo::Static { .. } => "static",
            PositionInfo::Fixed { .. } => "fixed",
            PositionInfo::Absolute { .. } => "absolute",
            PositionInfo::Relative { .. } => "relative",
        };
        let mut text: String = String::new();
        text.append(keyword);
        text.append("(");
        text.append(x_text);
        text.append(", ");
        text.append(y_text);
        text.append(")");
        assert(text@ =~= self.keyword() + "("@ + x_text@ + ", "@ + y_text@ + ")"@);
        text
    }

    /// Whether the rectangle was taken out of the flow or moved within it.
    pub fn is_positioned(&self) -> (r: bool)
        ensures
            r == !(self is Static),
    {
        match self {
            PositionInfo::Static { .. } => false,
            PositionInfo::Fixed { .. } => true,
            PositionInfo::Absolute { .. } => true,
            PositionInfo::Relative { .. } => true,
        }
    }

    pub fn get_relative_offset(&self) -> (r: (S, S))
        ensures
            r == self.relative_offset(),
    {
        match self {
            PositionInfo::Static { x_offset, y_offset, .. } => (*x_offset, *y_offset),
            PositionInfo::Fixed { x_offset, y_offset, .. } => (*x_offset, *y_offset),
            PositionInfo::Absolute { x_offset, y_offset, .. } => (*x_offset, *y_offset),
            PositionInfo::Relative { x_offset, y_offset, .. } => (*x_offset, *y_offset),
        }
    }
}

/// A rectangle of the finished layout.
#[derive(Debug, Clone, PartialEq, PartialOrd)]
pub struct PositionedRectangle<S> {
    /// Outer bounds of the rectangle
    pub size: LogicalSize<S>,
    /// How the rectangle should be positioned
    pub position: PositionInfo<S>,
    /// Padding of the rectangle
    pub padding: ResolvedOffsets<S>,
    /// Margin of the rectangle
    pub margin: ResolvedOffsets<S>,
    /// Border widths of the rectangle
    pub border_widths: ResolvedOffsets<S>,
    /// Widths of the box shadow(s), necessary to calculate clip rect
    pub box_shadow: StyleBoxShadowOffsets<S>,
    /// Whether the borders are included in the size or not
    pub box_sizing: LayoutBoxSizing,
    /// Evaluated result of the overflow-x property
    pub overflow_x: LayoutOverflow,
    /// Evaluated result of the overflow-y property
    pub overflow_y: LayoutOverflow,
    /// If this is an inline rectangle, resolve the %-based font sizes
    /// and store them here.
    pub resolved_text_layout_options: Option<(ResolvedTextLayoutOptions<S>, InlineTextLayout<S>)>,
}

impl<S: Scalar> Default for PositionedRectangle<S> {
    fn default() -> (r: Self)
        ensures
            r == (PositionedRectangle {
                size: LogicalSize::<S>::spec_zero(),
                overflow_x: LayoutOverflow::Visible,
                overflow_y: LayoutOverflow::Visible,
                position: PositionInfo::Static {
                    x_offset: S::spec_zero(),
                    y_offset: S::spec_zero(),
                    static_x_offset: S::spec_zero(),
                    static_y_offset: S::spec_zero(),
                },
                padding: ResolvedOffsets::<S>::spec_zero(),
                margin: ResolvedOffsets::<S>::spec_zero(),
                border_widths: ResolvedOffsets::<S>::spec_zero(),
                box_shadow: StyleBoxShadowOffsets::<S>::spec_none(),
                box_sizing: LayoutBoxSizing::ContentBox,
                resolved_text_layout_options: None,
            }),
    {
        PositionedRectangle {
            size: LogicalSize::zero(),
            overflow_x: LayoutOverflow::default(),
            overflow_y: LayoutOverflow::default(),
            position: PositionInfo::Static {
                x_offset: S::zero(),
                y_offset: S::zero(),
                static_x_offset: S::zero(),
                static_y_offset: S::zero(),
            },
            padding: ResolvedOffsets::zero(),
            margin: ResolvedOffsets::zero(),
            border_widths: ResolvedOffsets::zero(),
            box_shadow: StyleBoxShadowOffsets::default(),
            box_sizing: LayoutBoxSizing::default(),
            resolved_text_layout_options: None,
        }
    }
}

impl<S: Scalar> PositionedRectangle<S> {
    /// The offset in the window.
    pub open spec fn logical_static_offset(self) -> LogicalPosition<S> {
        LogicalPosition { x: self.position.static_offset().0, y: self.position.static_offset().1 }
    }

    /// The offset in the window, in whole pixels.
    pub open spec fn static_offset(self) -> LayoutPoint {
        LayoutPoint {
            x: self.position.static_offset().0.spec_round_to_isize(),
            y: self.position.static_offset().1.spec_round_to_isize(),
        }
    }

    /// The size, in whole pixels.
    pub open spec fn content_size(self) -> LayoutSize {
        LayoutSize {
            width: self.size.width.spec_round_to_isize(),
            height: self.size.height.spec_round_to_isize(),
        }
    }

    pub fn get_approximate_static_bounds(&self) -> (r: LayoutRect)
        ensures
            r == (LayoutRect { origin: self.static_offset(), size: self.content_size() }),
    {
        LayoutRect::new(self.get_static_offset(), self.get_content_size())
    }

    /// Returns the size of the rect where the content should be placed (for example
    /// the text itself).
    pub fn get_content_size(&self) -> (r: LayoutSize)
        ensures
            r == self.content_size(),
    {
        LayoutSize::new(self.size.width.round_to_isize(), self.size.height.round_to_isize())
    }

    pub fn get_logical_static_offset(&self) -> (r: LogicalPosition<S>)
        ensures
            r == self.logical_static_offset(),
    {
        match self.position {
            PositionInfo::Static { static_x_offset, static_y_offset, .. } => LogicalPosition::new(
                static_x_offset,
                static_y_offset,
            ),
            PositionInfo::Fixed { static_x_offset, static_y_offset, .. } => LogicalPosition::new(
                static_x_offset,
                static_y_offset,
            ),
            PositionInfo::Absolute { static_x_offset, static_y_offset, .. } =>
            LogicalPosition::new(static_x_offset, static_y_offset),
            PositionInfo::Relative { static_x_offset, static_y_offset, .. } =>
            LogicalPosition::new(static_x_offset, static_y_offset),
        }
    }

    pub fn get_logical_relative_offset(&self) -> (r: LogicalPosition<S>)
        ensures
            r == (LogicalPosition {
                x: self.position.relative_offset().0,
                y: self.position.relative_offset().1,
            }),
    {
        let (x, y) = self.position.get_relative_offset();
        LogicalPosition::new(x, y)
    }

    pub fn get_static_offset(&self) -> (r: LayoutPoint)
        ensures
            r == self.static_offset(),
    {
        let offset: LogicalPosition<S> = self.get_logical_static_offset();
        LayoutPoint::new(offset.x.round_to_isize(), offset.y.round_to_isize())
    }

    /// The width with the padding and the border.
    pub open spec fn background_width(self) -> S {
        self.size.width.spec_plus(self.padding.spec_total_horizontal()).spec_plus(
            self.border_widths.spec_total_horizontal(),
        )
    }

    /// The height with the padding and the border.
    pub open spec fn background_height(self) -> S {
        self.size.height.spec_plus(self.padding.spec_total_vertical()).spec_plus(
            self.border_widths.spec_total_vertical(),
        )
    }

    /// The position of the rect with the padding and the border: the relative
    /// offset moves to the left and up by what they take there.
    pub open spec fn background_position(self) -> PositionInfo<S> {
        let x_offset_add = S::spec_zero().spec_minus(self.padding.left).spec_minus(
            self.border_widths.left,
        );
        let y_offset_add = S::spec_zero().spec_minus(self.padding.top).spec_minus(
            self.border_widths.top,
        );
        let (x, y) = self.position.relative_offset();
        self.position.with_relative_offset(x.spec_plus(x_offset_add), y.spec_plus(y_offset_add))
    }

    /// Returns the rect that includes bounds, expanded by the padding + the border widths.
    pub fn get_background_bounds(&self) -> (r: (LogicalSize<S>, PositionInfo<S>))
        ensures
            r.0 == (LogicalSize {
                width: self.background_width(),
                height: self.background_height(),
            }),
            r.1 == self.background_position(),
    {
        let b_size: LogicalSize<S> = LogicalSize {
            width: self.size.width.plus(self.padding.total_horizontal()).plus(
                self.border_widths.total_horizontal(),
            ),
            height: self.size.height.plus(self.padding.total_vertical()).plus(
                self.border_widths.total_vertical(),
            ),
        };
        let x_offset_add: S = S::zero().minus(self.padding.left).minus(self.border_widths.left);
        let y_offset_add: S = S::zero().minus(self.padding.top).minus(self.border_widths.top);
        let b_position: PositionInfo<S> = match self.position {
            PositionInfo::Static { x_offset, y_offset, static_x_offset, static_y_offset } =>
            PositionInfo::Static {
                x_offset: x_offset.plus(x_offset_add),
                y_offset: y_offset.plus(y_offset_add),
                static_x_offset,
                static_y_offset,
            },
            PositionInfo::Fixed { x_offset, y_offset, static_x_offset, static_y_offset } =>
            PositionInfo::Fixed {
                x_offset: x_offset.plus(x_offset_add),
                y_offset: y_offset.plus(y_offset_add),
                static_x_offset,
                static_y_offset,
            },
            PositionInfo::Relative { x_offset, y_offset, static_x_offset, static_y_offset } =>
            PositionInfo::Relative {
                x_offset: x_offset.plus(x_offset_add),
                y_offset: y_offset.plus(y_offset_add),
                static_x_offset,
                static_y_offset,
            },
            PositionInfo::Absolute { x_offset, y_offset, static_x_offset, static_y_offset } =>
            PositionInfo::Absolute {
                x_offset: x_offset.plus(x_offset_add),
                y_offset: y_offset.plus(y_offset_add),
                static_x_offset,
                static_y_offset,
            },
        };
        (b_size, b_position)
    }

    pub fn get_margin_box_width(&self) -> (r: S)
        ensures
            r == self.background_width().spec_plus(self.margin.spec_total_horizontal()),
    {
        self.size.width.plus(self.padding.total_horizontal()).plus(
            self.border_widths.total_horizontal(),
        ).plus(self.margin.total_horizontal())
    }

    pub fn get_margin_box_height(&self) -> (r: S)
        ensures
            r == self.background_height().spec_plus(self.margin.spec_total_vertical()),
    {
        self.size.height.plus(self.padding.total_vertical()).plus(
            self.border_widths.total_vertical(),
        ).plus(self.margin.total_vertical())
    }

    pub fn get_left_leading(&self) -> (r: S)
        ensures
            r == self.margin.left.spec_plus(self.padding.left).spec_plus(self.border_widths.left),
    {
        self.margin.left.plus(self.padding.left).plus(self.border_widths.left)
    }

    pub fn get_top_leading(&self) -> (r: S)
        ensures
            r == self.margin.top.spec_plus(self.padding.top).spec_plus(self.border_widths.top),
    {
        self.margin.top.plus(self.padding.top).plus(self.border_widths.top)
    }
}

} // verus!
