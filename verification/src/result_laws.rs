//! Laws of what callers get back from the functions of the crate.
use crate::constraint::WhConstraint;
use crate::dom::{NodeId, TagIdToNodeIdMapping};
use crate::geometry::{
    LayoutPoint, LayoutRect, LayoutSize, LogicalPosition, LogicalRect, LogicalSize,
};
use crate::hit::{HitTest, LayoutResult};
use crate::hit_laws::{
    is_answer, law_cursor_is_relative_to_innermost_ancestor, law_hits_come_from_answers,
    place_in_window,
};
use crate::overflow::DirectionalOverflowInfo;
use crate::rect::{PositionInfo, PositionedRectangle, ResolvedOffsets};
use crate::ring::{lemma_plus_minus, Field, Ordered, Ring};
use crate::scalar::Scalar;
use crate::solved::{
    HeightCalculatedRect, HeightSolvedResult, WidthCalculatedRect, WidthSolvedResult,
};
use crate::style::{
    resolve_property, CssPropertyValue, Length, StyleTransform, StyleTransformOrigin,
};
use crate::style_laws::{
    image4, law_product_applies_after_in_space, law_style_rotations_keep_the_origin,
};
use crate::text::InlineTextLayout;
use crate::transform::{ComputedTransform3D, RotationMode};
use crate::transform_laws::{law_inverse_undoes_unless_singular, law_then_sse_is_followed_by};
use vstd::prelude::*;

verus! {

/// Whoever asks for a side of a width gets what the property of that side says.
pub proof fn law_results_for_sides_of_width<S: Scalar>(rect: WidthCalculatedRect<S>, whole: S)
    ensures
        forall|r: S| #[trigger]
            call_ensures(
                WidthCalculatedRect::<S>::get_margin_left,
                (&rect, whole),
                r,
            ) ==> match rect.margin_left {
                Some(CssPropertyValue::Exact(Length::Absolute(v))) => r == v,
                Some(CssPropertyValue::Exact(Length::Percent(p))) => r == p.spec_over(
                    S::spec_hundred(),
                ).spec_times(whole),
                _ => r == S::spec_zero(),
            },
        forall|r: S| #[trigger]
            call_ensures(
                WidthCalculatedRect::<S>::get_margin_right,
                (&rect, whole),
                r,
            ) ==> match rect.margin_right {
                Some(CssPropertyValue::Exact(Length::Absolute(v))) => r == v,
                Some(CssPropertyValue::Exact(Length::Percent(p))) => r == p.spec_over(
                    S::spec_hundred(),
                ).spec_times(whole),
                _ => r == S::spec_zero(),
            },
        forall|r: S| #[trigger]
            call_ensures(
                WidthCalculatedRect::<S>::get_raw_padding_left,
                (&rect, whole),
                r,
            ) ==> match rect.padding_left {
                Some(CssPropertyValue::Exact(Length::Absolute(v))) => r == v,
                Some(CssPropertyValue::Exact(Length::Percent(p))) => r == p.spec_over(
                    S::spec_hundred(),
                ).spec_times(whole),
                _ => r == S::spec_zero(),
            },
        forall|r: S| #[trigger]
            call_ensures(
                WidthCalculatedRect::<S>::get_raw_padding_right,
                (&rect, whole),
                r,
            ) ==> match rect.padding_right {
                Some(CssPropertyValue::Exact(Length::Absolute(v))) => r == v,
                Some(CssPropertyValue::Exact(Length::Percent(p))) => r == p.spec_over(
                    S::spec_hundred(),
                ).spec_times(whole),
                _ => r == S::spec_zero(),
            },
        forall|r: S| #[trigger]
            call_ensures(
                WidthCalculatedRect::<S>::get_border_left,
                (&rect, whole),
                r,
            ) ==> match rect.border_left {
                Some(CssPropertyValue::Exact(Length::Absolute(v))) => r == v,
                Some(CssPropertyValue::Exact(Length::Percent(p))) => r == p.spec_over(
                    S::spec_hundred(),
                ).spec_times(whole),
                _ => r == S::spec_zero(),
            },
        forall|r: S| #[trigger]
            call_ensures(
                WidthCalculatedRect::<S>::get_border_right,
                (&rect, whole),
                r,
            ) ==> match rect.border_right {
                Some(CssPropertyValue::Exact(Length::Absolute(v))) => r == v,
                Some(CssPropertyValue::Exact(Length::Percent(p))) => r == p.spec_over(
                    S::spec_hundred(),
                ).spec_times(whole),
                _ => r == S::spec_zero(),
            },
{
}

/// The sums that callers get are those of the sides that they get: the padding of a side
/// with its border, both sides of the margin, of the border and of the padding, the flex
/// basis with all of it, and the total with the space that was added.
pub proof fn law_results_for_sums_of_width<S: Scalar>(
    rect: WidthCalculatedRect<S>,
    whole: S,
    ml: S,
    mr: S,
    pl: S,
    pr: S,
    bl: S,
    br: S,
)
    requires
        call_ensures(WidthCalculatedRect::<S>::get_margin_left, (&rect, whole), ml),
        call_ensures(WidthCalculatedRect::<S>::get_margin_right, (&rect, whole), mr),
        call_ensures(WidthCalculatedRect::<S>::get_raw_padding_left, (&rect, whole), pl),
        call_ensures(WidthCalculatedRect::<S>::get_raw_padding_right, (&rect, whole), pr),
        call_ensures(WidthCalculatedRect::<S>::get_border_left, (&rect, whole), bl),
        call_ensures(WidthCalculatedRect::<S>::get_border_right, (&rect, whole), br),
    ensures
        forall|r: S| #[trigger]
            call_ensures(WidthCalculatedRect::<S>::get_padding_left, (&rect, whole), r) ==> r
                == pl.spec_plus(bl),
        forall|r: S| #[trigger]
            call_ensures(WidthCalculatedRect::<S>::get_padding_right, (&rect, whole), r) ==> r
                == pr.spec_plus(br),
        forall|r: S| #[trigger]
            call_ensures(WidthCalculatedRect::<S>::get_horizontal_margin, (&rect, whole), r) ==> r
                == ml.spec_plus(mr),
        forall|r: S| #[trigger]
            call_ensures(WidthCalculatedRect::<S>::get_horizontal_border, (&rect, whole), r) ==> r
                == bl.spec_plus(br),
        forall|r: S| #[trigger]
            call_ensures(WidthCalculatedRect::<S>::get_horizontal_padding, (&rect, whole), r) ==> r
                == pl.spec_plus(bl).spec_plus(pr.spec_plus(br)),
        forall|r: S| #[trigger]
            call_ensures(
                WidthCalculatedRect::<S>::get_flex_basis_horizontal,
                (&rect, whole),
                r,
            ) ==> r
                == rect.min_inner_size_px.spec_plus(ml).spec_plus(mr).spec_plus(pl).spec_plus(
                pr,
            ).spec_plus(bl).spec_plus(br),
        forall|r: S| #[trigger]
            call_ensures(WidthCalculatedRect::<S>::total, (&rect,), r) ==> r
                == rect.min_inner_size_px.spec_plus(rect.flex_grow_px),
        forall|r: WidthSolvedResult<S>| #[trigger]
            call_ensures(WidthCalculatedRect::<S>::solved_result, (&rect,), r) ==> {
                &&& r.min_width == rect.min_inner_size_px
                &&& r.space_added == rect.flex_grow_px
            },
{
}

/// Whoever asks for a side of a height gets what the property of that side says.
pub proof fn law_results_for_sides_of_height<S: Scalar>(rect: HeightCalculatedRect<S>, whole: S)
    ensures
        forall|r: S| #[trigger]
            call_ensures(
                HeightCalculatedRect::<S>::get_margin_top,
                (&rect, whole),
                r,
            ) ==> match rect.margin_top {
                Some(CssPropertyValue::Exact(Length::Absolute(v))) => r == v,
                Some(CssPropertyValue::Exact(Length::Percent(p))) => r == p.spec_over(
                    S::spec_hundred(),
                ).spec_times(whole),
                _ => r == S::spec_zero(),
            },
        forall|r: S| #[trigger]
            call_ensures(
                HeightCalculatedRect::<S>::get_margin_bottom,
                (&rect, whole),
                r,
            ) ==> match rect.margin_bottom {
                Some(CssPropertyValue::Exact(Length::Absolute(v))) => r == v,
                Some(CssPropertyValue::Exact(Length::Percent(p))) => r == p.spec_over(
                    S::spec_hundred(),
                ).spec_times(whole),
                _ => r == S::spec_zero(),
            },
        forall|r: S| #[trigger]
            call_ensures(
                HeightCalculatedRect::<S>::get_raw_padding_top,
                (&rect, whole),
                r,
            ) ==> match rect.padding_top {
                Some(CssPropertyValue::Exact(Length::Absolute(v))) => r == v,
                Some(CssPropertyValue::Exact(Length::Percent(p))) => r == p.spec_over(
                    S::spec_hundred(),
                ).spec_times(whole),
                _ => r == S::spec_zero(),
            },
        forall|r: S| #[trigger]
            call_ensures(
                HeightCalculatedRect::<S>::get_raw_padding_bottom,
                (&rect, whole),
                r,
            ) ==> match rect.padding_bottom {
                Some(CssPropertyValue::Exact(Length::Absolute(v))) => r == v,
                Some(CssPropertyValue::Exact(Length::Percent(p))) => r == p.spec_over(
                    S::spec_hundred(),
                ).spec_times(whole),
                _ => r == S::spec_zero(),
            },
        forall|r: S| #[trigger]
            call_ensures(
                HeightCalculatedRect::<S>::get_border_top,
                (&rect, whole),
                r,
            ) ==> match rect.border_top {
                Some(CssPropertyValue::Exact(Length::Absolute(v))) => r == v,
                Some(CssPropertyValue::Exact(Length::Percent(p))) => r == p.spec_over(
                    S::spec_hundred(),
                ).spec_times(whole),
                _ => r == S::spec_zero(),
            },
        forall|r: S| #[trigger]
            call_ensures(
                HeightCalculatedRect::<S>::get_border_bottom,
                (&rect, whole),
                r,
            ) ==> match rect.border_bottom {
                Some(CssPropertyValue::Exact(Length::Absolute(v))) => r == v,
                Some(CssPropertyValue::Exact(Length::Percent(p))) => r == p.spec_over(
                    S::spec_hundred(),
                ).spec_times(whole),
                _ => r == S::spec_zero(),
            },
{
}

/// The sums that callers get are those of the sides that they get: the padding of a side
/// with its border, both sides of the margin, of the border and of the padding, the flex
/// basis with all of it, and the total with the space that was added.
pub proof fn law_results_for_sums_of_height<S: Scalar>(
    rect: HeightCalculatedRect<S>,
    whole: S,
    ml: S,
    mr: S,
    pl: S,
    pr: S,
    bl: S,
    br: S,
)
    requires
        call_ensures(HeightCalculatedRect::<S>::get_margin_top, (&rect, whole), ml),
        call_ensures(HeightCalculatedRect::<S>::get_margin_bottom, (&rect, whole), mr),
        call_ensures(HeightCalculatedRect::<S>::get_raw_padding_top, (&rect, whole), pl),
        call_ensures(HeightCalculatedRect::<S>::get_raw_padding_bottom, (&rect, whole), pr),
        call_ensures(HeightCalculatedRect::<S>::get_border_top, (&rect, whole), bl),
        call_ensures(HeightCalculatedRect::<S>::get_border_bottom, (&rect, whole), br),
    ensures
        forall|r: S| #[trigger]
            call_ensures(HeightCalculatedRect::<S>::get_padding_top, (&rect, whole), r) ==> r
                == pl.spec_plus(bl),
        forall|r: S| #[trigger]
            call_ensures(HeightCalculatedRect::<S>::get_padding_bottom, (&rect, whole), r) ==> r
                == pr.spec_plus(br),
        forall|r: S| #[trigger]
            call_ensures(HeightCalculatedRect::<S>::get_vertical_margin, (&rect, whole), r) ==> r
                == ml.spec_plus(mr),
        forall|r: S| #[trigger]
            call_ensures(HeightCalculatedRect::<S>::get_vertical_border, (&rect, whole), r) ==> r
                == bl.spec_plus(br),
        forall|r: S| #[trigger]
            call_ensures(HeightCalculatedRect::<S>::get_vertical_padding, (&rect, whole), r) ==> r
                == pl.spec_plus(bl).spec_plus(pr.spec_plus(br)),
        forall|r: S| #[trigger]
            call_ensures(
                HeightCalculatedRect::<S>::get_flex_basis_vertical,
                (&rect, whole),
                r,
            ) ==> r
                == rect.min_inner_size_px.spec_plus(ml).spec_plus(mr).spec_plus(pl).spec_plus(
                pr,
            ).spec_plus(bl).spec_plus(br),
        forall|r: S| #[trigger]
            call_ensures(HeightCalculatedRect::<S>::total, (&rect,), r) ==> r
                == rect.min_inner_size_px.spec_plus(rect.flex_grow_px),
        forall|r: HeightSolvedResult<S>| #[trigger]
            call_ensures(HeightCalculatedRect::<S>::solved_result, (&rect,), r) ==> {
                &&& r.min_height == rect.min_inner_size_px
                &&& r.space_added == rect.flex_grow_px
            },
{
}

/// What a constraint needs and leaves, as callers get it, are the smallest and the largest
/// of the sizes that they can get for it, wherever the smallest is not the larger one.
pub proof fn law_results_for_constraints<S: Ordered>(
    constraint: WhConstraint<S>,
    width: S,
    size: S,
    needed: Option<S>,
    available: Option<S>,
    fixed: bool,
)
    requires
        call_ensures(
            WhConstraint::<S>::calculate_from_relative_parent,
            (&constraint, width),
            size,
        ),
        call_ensures(WhConstraint::<S>::min_needed_space, (&constraint,), needed),
        call_ensures(WhConstraint::<S>::max_available_space, (&constraint,), available),
        call_ensures(WhConstraint::<S>::is_fixed_constraint, (&constraint,), fixed),
    ensures
        fixed <==> constraint is EqualTo,
        match constraint {
            WhConstraint::Between(min, max) => {
                &&& needed == Some(min)
                &&& available == Some(max)
                &&& size.at_most(max)
                &&& min.at_most(max) ==> min.at_most(size)
                &&& width.at_most(min) && min.at_most(max) ==> size == min
                &&& max.at_most(width) ==> size == max
                &&& min.at_most(width) && width.at_most(max) ==> size == width
            },
            WhConstraint::EqualTo(exact) => {
                &&& needed == Some(exact)
                &&& available == Some(exact)
                &&& size == exact
            },
            WhConstraint::Unconstrained => {
                &&& needed == Some(S::spec_zero())
                &&& available is None
                &&& size == width
            },
        },
{
    if let WhConstraint::Between(min, max) = constraint {
        let raised = width.spec_maximum(min);
        S::extremes_follow_order(width, min);
        S::extremes_follow_order(raised, max);
        S::order_is_total(width, min);
        S::order_is_total(raised, max);
        S::order_is_total(max, max);
        S::order_is_total(width, width);
        S::order_is_total(width, max);
        S::order_is_total(min, min);
        if max.at_most(width) && width.at_most(min) {
            S::order_is_transitive(max, width, min);
        }
    }
}

/// A length that callers resolve is its own number of pixels or its share of the whole,
/// and a property that is not set or only a keyword has no length.
pub proof fn law_results_for_lengths<S: Scalar>(
    length: Length<S>,
    property: Option<CssPropertyValue<Length<S>>>,
    whole: S,
    px: S,
    resolved: S,
)
    requires
        call_ensures(Length::<S>::to_pixels, (&length, whole), px),
        call_ensures(resolve_property::<S>, (&property, whole), resolved),
    ensures
        match length {
            Length::Absolute(v) => px == v,
            Length::Percent(p) => px == p.spec_over(S::spec_hundred()).spec_times(whole),
        },
        property == Some(CssPropertyValue::Exact(length)) ==> resolved == px,
        property is None ==> resolved == S::spec_zero(),
        property matches Some(value) ==> (value is Exact || resolved == S::spec_zero()),
{
}

/// What callers get of a rectangle is made of its own fields: its offsets by the kind of
/// position, its sizes side by side, and everything in whole pixels rounded.
pub proof fn law_results_for_rectangles<S: Scalar>(rect: PositionedRectangle<S>)
    ensures
        forall|r: LogicalPosition<S>| #[trigger]
            call_ensures(PositionedRectangle::<S>::get_logical_static_offset, (&rect,), r) ==> (
            r.x,
            r.y,
        ) == place_in_window(rect),
        forall|r: LogicalPosition<S>| #[trigger]
            call_ensures(PositionedRectangle::<S>::get_logical_relative_offset, (&rect,), r) ==> (
            r.x,
            r.y,
        ) == match rect.position {
            PositionInfo::Static { x_offset, y_offset, .. } => (x_offset, y_offset),
            PositionInfo::Fixed { x_offset, y_offset, .. } => (x_offset, y_offset),
            PositionInfo::Absolute { x_offset, y_offset, .. } => (x_offset, y_offset),
            PositionInfo::Relative { x_offset, y_offset, .. } => (x_offset, y_offset),
        },
        forall|r: bool| #[trigger]
            call_ensures(PositionInfo::<S>::is_positioned, (&rect.position,), r) ==> r == (
            rect.position is Fixed || rect.position is Absolute || rect.position is Relative),
        forall|r: LayoutRect| #[trigger]
            call_ensures(PositionedRectangle::<S>::get_approximate_static_bounds, (&rect,), r)
                ==> {
                let (x, y) = place_in_window(rect);
                &&& r.origin.x == x.spec_round_to_isize()
                &&& r.origin.y == y.spec_round_to_isize()
                &&& r.size.width == rect.size.width.spec_round_to_isize()
                &&& r.size.height == rect.size.height.spec_round_to_isize()
            },
        forall|r: LayoutPoint| #[trigger]
            call_ensures(PositionedRectangle::<S>::get_static_offset, (&rect,), r) ==> {
                let (x, y) = place_in_window(rect);
                &&& r.x == x.spec_round_to_isize()
                &&& r.y == y.spec_round_to_isize()
            },
        forall|r: LayoutSize| #[trigger]
            call_ensures(PositionedRectangle::<S>::get_content_size, (&rect,), r) ==> {
                &&& r.width == rect.size.width.spec_round_to_isize()
                &&& r.height == rect.size.height.spec_round_to_isize()
            },
        forall|r: S| #[trigger]
            call_ensures(PositionedRectangle::<S>::get_left_leading, (&rect,), r) ==> r
                == rect.margin.left.spec_plus(rect.padding.left).spec_plus(
                rect.border_widths.left,
            ),
        forall|r: S| #[trigger]
            call_ensures(PositionedRectangle::<S>::get_top_leading, (&rect,), r) ==> r
                == rect.margin.top.spec_plus(rect.padding.top).spec_plus(rect.border_widths.top),
        forall|r: S| #[trigger]
            call_ensures(ResolvedOffsets::<S>::total_vertical, (&rect.margin,), r) ==> r
                == rect.margin.top.spec_plus(rect.margin.bottom),
        forall|r: S| #[trigger]
            call_ensures(ResolvedOffsets::<S>::total_horizontal, (&rect.margin,), r) ==> r
                == rect.margin.left.spec_plus(rect.margin.right),
{
}

/// The margin box that callers get is larger than the background by the margins on both
/// sides, and the background is larger than the content by the padding and the border.
pub proof fn law_results_for_boxes<S: Scalar>(
    rect: PositionedRectangle<S>,
    background: (LogicalSize<S>, PositionInfo<S>),
    width: S,
    height: S,
)
    requires
        call_ensures(PositionedRectangle::<S>::get_background_bounds, (&rect,), background),
        call_ensures(PositionedRectangle::<S>::get_margin_box_width, (&rect,), width),
        call_ensures(PositionedRectangle::<S>::get_margin_box_height, (&rect,), height),
    ensures
        width == background.0.width.spec_plus(rect.margin.left.spec_plus(rect.margin.right)),
        height == background.0.height.spec_plus(rect.margin.top.spec_plus(rect.margin.bottom)),
        background.0.width == rect.size.width.spec_plus(
            rect.padding.left.spec_plus(rect.padding.right),
        ).spec_plus(rect.border_widths.left.spec_plus(rect.border_widths.right)),
        background.0.height == rect.size.height.spec_plus(
            rect.padding.top.spec_plus(rect.padding.bottom),
        ).spec_plus(rect.border_widths.top.spec_plus(rect.border_widths.bottom)),
        ({
            let x = S::spec_zero().spec_minus(rect.padding.left).spec_minus(
                rect.border_widths.left,
            );
            let y = S::spec_zero().spec_minus(rect.padding.top).spec_minus(rect.border_widths.top);
            match (rect.position, background.1) {
                (
                    PositionInfo::Static {
                        x_offset,
                        y_offset,
                        static_x_offset,
                        static_y_offset,
                    },
                    PositionInfo::Static {
                        x_offset: bx,
                        y_offset: by,
                        static_x_offset: sx,
                        static_y_offset: sy,
                    },
                ) => bx == x_offset.spec_plus(x) && by == y_offset.spec_plus(y) && sx
                    == static_x_offset && sy == static_y_offset,
                (
                    PositionInfo::Fixed { x_offset, y_offset, static_x_offset, static_y_offset },
                    PositionInfo::Fixed {
                        x_offset: bx,
                        y_offset: by,
                        static_x_offset: sx,
                        static_y_offset: sy,
                    },
                ) => bx == x_offset.spec_plus(x) && by == y_offset.spec_plus(y) && sx
                    == static_x_offset && sy == static_y_offset,
                (
                    PositionInfo::Absolute {
                        x_offset,
                        y_offset,
                        static_x_offset,
                        static_y_offset,
                    },
                    PositionInfo::Absolute {
                        x_offset: bx,
                        y_offset: by,
                        static_x_offset: sx,
                        static_y_offset: sy,
                    },
                ) => bx == x_offset.spec_plus(x) && by == y_offset.spec_plus(y) && sx
                    == static_x_offset && sy == static_y_offset,
                (
                    PositionInfo::Relative {
                        x_offset,
                        y_offset,
                        static_x_offset,
                        static_y_offset,
                    },
                    PositionInfo::Relative {
                        x_offset: bx,
                        y_offset: by,
                        static_x_offset: sx,
                        static_y_offset: sy,
                    },
                ) => bx == x_offset.spec_plus(x) && by == y_offset.spec_plus(y) && sx
                    == static_x_offset && sy == static_y_offset,
                _ => false,
            }
        }),
{
}

/// The edges of a text that callers get are those of its first line: they are as far apart
/// as the line is wide. A text without lines has both at 0.
pub proof fn law_results_for_edges_of_text<S: Ring>(
    text: InlineTextLayout<S>,
    leading: S,
    trailing: S,
)
    requires
        call_ensures(InlineTextLayout::<S>::get_leading, (&text,), leading),
        call_ensures(InlineTextLayout::<S>::get_trailing, (&text,), trailing),
    ensures
        text.lines@.len() == 0 ==> leading == S::spec_zero() && trailing == S::spec_zero(),
        text.lines@.len() > 0 ==> {
            &&& leading == text.lines@[0].bounds.origin.x
            &&& trailing.spec_minus(leading) == text.lines@[0].bounds.size.width
        },
{
    if text.lines@.len() > 0 {
        let x = text.lines@[0].bounds.origin.x;
        let w = text.lines@[0].bounds.size.width;
        S::plus_commutes(x, w);
        lemma_plus_minus(w, x);
    }
}

/// What callers learn of an overflow: the amount that it has, whether it has one, and
/// whether the children stay inside, as they do without an amount.
pub proof fn law_results_for_overflow(
    info: DirectionalOverflowInfo,
    amount: Option<isize>,
    negative: bool,
    none: bool,
)
    requires
        call_ensures(DirectionalOverflowInfo::get_amount, (&info,), amount),
        call_ensures(DirectionalOverflowInfo::is_negative, (&info,), negative),
        call_ensures(DirectionalOverflowInfo::is_none, (&info,), none),
    ensures
        info == (DirectionalOverflowInfo::Scroll { amount }) || info
            == (DirectionalOverflowInfo::Auto { amount }) || info
            == (DirectionalOverflowInfo::Hidden { amount }) || info
            == (DirectionalOverflowInfo::Visible { amount }),
        none <==> amount is None,
        negative <==> (amount matches Some(n) ==> n < 0),
{
}

/// All ways of combining two transforms give callers the same one, where scalars are
/// exact, and the combination takes every point of the plane to where the second one takes
/// its image under a first one of the plane.
pub proof fn law_results_for_products<S: Ring>(
    a: ComputedTransform3D<S>,
    b: ComputedTransform3D<S>,
    plain: ComputedTransform3D<S>,
    by_rows: ComputedTransform3D<S>,
    by_pairs: ComputedTransform3D<S>,
)
    requires
        call_ensures(ComputedTransform3D::<S>::followed_by, (&a, &b), plain),
        call_ensures(ComputedTransform3D::<S>::then_sse, (&a, &b), by_rows),
        call_ensures(ComputedTransform3D::<S>::then_avx8, (&a, &b), by_pairs),
    ensures
        by_rows == plain,
        by_pairs == plain,
        forall|x: S, y: S, z: S, w: S, j: int|
            0 <= j < 4 ==> #[trigger] image4(plain, x, y, z, w, j) == image4(
                b,
                image4(a, x, y, z, w, 0),
                image4(a, x, y, z, w, 1),
                image4(a, x, y, z, w, 2),
                image4(a, x, y, z, w, 3),
                j,
            ),
{
    law_then_sse_is_followed_by(a, b);
    assert forall|x: S, y: S, z: S, w: S, j: int| 0 <= j < 4 implies #[trigger] image4(
        plain,
        x,
        y,
        z,
        w,
        j,
    ) == image4(
        b,
        image4(a, x, y, z, w, 0),
        image4(a, x, y, z, w, 1),
        image4(a, x, y, z, w, 2),
        image4(a, x, y, z, w, 3),
        j,
    ) by {
        law_product_applies_after_in_space(a, b, x, y, z, w, j);
    }
}

/// The inverse that callers get undoes the transform, in either order, unless the
/// determinant that they get is 0.
pub proof fn law_results_for_inverses<S: Field>(
    m: ComputedTransform3D<S>,
    determinant: S,
    inverse: ComputedTransform3D<S>,
    there_and_back: ComputedTransform3D<S>,
    back_and_there: ComputedTransform3D<S>,
    identity: ComputedTransform3D<S>,
)
    requires
        call_ensures(ComputedTransform3D::<S>::determinant, (&m,), determinant),
        determinant != S::spec_zero(),
        call_ensures(ComputedTransform3D::<S>::inverse, (&m,), inverse),
        call_ensures(ComputedTransform3D::<S>::followed_by, (&m, &inverse), there_and_back),
        call_ensures(ComputedTransform3D::<S>::followed_by, (&inverse, &m), back_and_there),
        call_ensures(ComputedTransform3D::<S>::identity, (), identity),
    ensures
        there_and_back == identity,
        back_and_there == identity,
{
    law_inverse_undoes_unless_singular(m);
}

/// Whoever transforms the origin of a rotation of a style gets the origin: its share of
/// the width and its share of the height.
pub proof fn law_results_for_style_rotations<S: Ring>(
    t: StyleTransform<S>,
    origin: StyleTransformOrigin<S>,
    width: S,
    height: S,
    mode: RotationMode,
    x: S,
    y: S,
    m: ComputedTransform3D<S>,
    image: Option<LogicalPosition<S>>,
)
    requires
        t is Rotate || t is RotateX || t is RotateY || t is RotateZ || t is Rotate3D,
        call_ensures(Length::<S>::to_pixels, (&origin.x, width), x),
        call_ensures(Length::<S>::to_pixels, (&origin.y, height), y),
        call_ensures(
            ComputedTransform3D::<S>::from_style_transform,
            (&t, &origin, width, height, mode),
            m,
        ),
        call_ensures(
            ComputedTransform3D::<S>::transform_point2d,
            (&m, LogicalPosition { x, y }),
            image,
        ),
    ensures
        image == Some(LogicalPosition { x, y }),
{
    law_style_rotations_keep_the_origin(t, origin, width, height, mode);
}

/// The cursor that callers get for a node without transforms around it is relative to
/// where the innermost ancestor lies in the window.
pub proof fn law_results_for_cursors<S: Ring>(
    layout: LayoutResult<S>,
    tag: TagIdToNodeIdMapping,
    node_id: NodeId,
    cursor: LogicalPosition<S>,
    point: LogicalPosition<S>,
)
    requires
        call_ensures(LayoutResult::<S>::project_cursor, (&layout, &tag, node_id, cursor), point),
        !layout.gpu_value_cache.current_transform_values@.contains_key(node_id),
        forall|k: int|
            0 <= k < tag.parent_node_ids@.len() ==> (#[trigger] tag.parent_node_ids@[k] matches
                Some(p) && !layout.gpu_value_cache.current_transform_values@.contains_key(p)),
    ensures
        tag.parent_node_ids@.len() == 0 ==> point == cursor,
        tag.parent_node_ids@.len() > 0 ==> ({
            let place = place_in_window(
                layout.rects@[tag.parent_node_ids@.last().unwrap() as int],
            );
            &&& point.x == cursor.x.spec_minus(place.0)
            &&& point.y == cursor.y.spec_minus(place.1)
        }),
{
    law_cursor_is_relative_to_innermost_ancestor(&layout, tag, node_id, cursor);
}

/// Every hit that callers get has the cursor, divided by the factor of the screen, a point
/// that `hit_test` may answer for one of the tags of the node, the document that the node
/// embeds with that point, and whether the node can have the focus; without a root nothing
/// is hit, and scroll frames never are.
pub proof fn law_results_for_hits<
    S: Scalar,
    F: Fn(LogicalRect<S>, LogicalPosition<S>) -> Option<LogicalPosition<S>> + Send + Sync,
>(
    layout: LayoutResult<S>,
    cursor: LogicalPosition<S>,
    hidpi_factor: S,
    hit_test: F,
    hits: HitTest<S>,
    node_id: NodeId,
)
    requires
        call_ensures(
            LayoutResult::<S>::get_hits::<F>,
            (&layout, &cursor, hidpi_factor, hit_test),
            hits,
        ),
    ensures
        !hits.scroll_hit_test_nodes@.contains_key(node_id),
        layout.styled_dom.root is None ==> !hits.regular_hit_test_nodes@.contains_key(node_id),
        hits.regular_hit_test_nodes@.contains_key(node_id) ==> {
            let item = hits.regular_hit_test_nodes@[node_id];
            &&& item.point_in_viewport.x == cursor.x.spec_over(hidpi_factor)
            &&& item.point_in_viewport.y == cursor.y.spec_over(hidpi_factor)
            &&& item.is_iframe_hit == if layout.iframe_mapping@.contains_key(node_id) {
                Some((layout.iframe_mapping@[node_id], item.point_relative_to_item))
            } else {
                None
            }
            &&& item.is_focusable
                == layout.styled_dom.node_data@[node_id as int].tab_index is Some
            &&& exists|t: int| #[trigger]
                is_answer(
                    &layout,
                    cursor.spec_over(hidpi_factor),
                    &hit_test,
                    node_id,
                    t,
                    item.point_relative_to_item,
                )
        },
{
    law_hits_come_from_answers(
        &layout,
        cursor,
        hidpi_factor,
        &hit_test,
        hits.regular_hit_test_nodes@,
        node_id,
    );
}

} // verus!
