//! Laws of the parts of boxes: resolved lengths, sides, offsets and overflow.
use crate::geometry::{LayoutPoint, LayoutSize, LogicalPosition, LogicalSize};
use crate::overflow::DirectionalOverflowInfo;
use crate::rect::{PositionInfo, PositionedRectangle, ResolvedOffsets, StyleBoxShadowOffsets};
use crate::ring::{Field, Ring};
use crate::scalar::Scalar;
use crate::scroll::{decimal, digit};
use crate::solved::{HeightCalculatedRect, WidthCalculatedRect};
use crate::style::{CssPropertyValue, Length};
use vstd::prelude::*;

verus! {

/// An exact value is the value of its property; a keyword has none.
pub proof fn law_only_exact_values_count<T>(property: CssPropertyValue<T>, value: T)
    ensures
        property.property() == Some(value) <==> property == CssPropertyValue::Exact(value),
        property.property() is None <==> (property is Auto || property is NoneKeyword
            || property is Initial || property is Inherit || property is Revert
            || property is Unset),
{
}

/// A length in pixels is what it says, whatever it is resolved against and whatever its
/// sign; of a percentage, a hundred times its pixels are as many times the whole.
pub proof fn law_length_in_pixels<S: Field>(v: S, whole: S)
    ensures
        Length::Absolute(v).pixels(whole) == v,
        Length::Percent(v).pixels(whole).spec_times(S::spec_hundred()) == v.spec_times(whole),
{
    let hundred = S::spec_hundred();
    let share = v.spec_over(hundred);
    S::divisors_are_not_zero();
    S::over_undoes_times(v, hundred);
    S::times_associates(share, whole, hundred);
    S::times_commutes(whole, hundred);
    S::times_associates(share, hundred, whole);
}

/// A percentage is divided by 100 before it is multiplied by the whole.
pub proof fn law_percentage_of_whole<S: Scalar>(v: S, whole: S)
    ensures
        Length::Absolute(v).pixels(whole) == v,
        Length::Percent(v).pixels(whole) == v.spec_over(S::spec_hundred()).spec_times(whole),
{
}

/// Every side of a width is what its own property says: a number of pixels as it is,
/// whatever its sign, a percentage of the whole width, or 0 for a property that is not set
/// or only a keyword.
pub proof fn law_sides_of_width<S: Scalar>(rect: WidthCalculatedRect<S>, whole: S)
    ensures
        match rect.margin_left {
            Some(CssPropertyValue::Exact(Length::Absolute(v))) => rect.spec_get_margin_left(
                whole,
            ) == v,
            Some(CssPropertyValue::Exact(Length::Percent(p))) => rect.spec_get_margin_left(
                whole,
            ) == p.spec_over(S::spec_hundred()).spec_times(whole),
            _ => rect.spec_get_margin_left(whole) == S::spec_zero(),
        },
        match rect.margin_right {
            Some(CssPropertyValue::Exact(Length::Absolute(v))) => rect.spec_get_margin_right(
                whole,
            ) == v,
            Some(CssPropertyValue::Exact(Length::Percent(p))) => rect.spec_get_margin_right(
                whole,
            ) == p.spec_over(S::spec_hundred()).spec_times(whole),
            _ => rect.spec_get_margin_right(whole) == S::spec_zero(),
        },
        match rect.padding_left {
            Some(CssPropertyValue::Exact(Length::Absolute(v))) => rect.spec_get_raw_padding_left(
                whole,
            ) == v,
            Some(CssPropertyValue::Exact(Length::Percent(p))) => rect.spec_get_raw_padding_left(
                whole,
            ) == p.spec_over(S::spec_hundred()).spec_times(whole),
            _ => rect.spec_get_raw_padding_left(whole) == S::spec_zero(),
        },
        match rect.padding_right {
            Some(CssPropertyValue::Exact(Length::Absolute(v))) => rect.spec_get_raw_padding_right(
                whole,
            ) == v,
            Some(CssPropertyValue::Exact(Length::Percent(p))) => rect.spec_get_raw_padding_right(
                whole,
            ) == p.spec_over(S::spec_hundred()).spec_times(whole),
            _ => rect.spec_get_raw_padding_right(whole) == S::spec_zero(),
        },
        match rect.border_left {
            Some(CssPropertyValue::Exact(Length::Absolute(v))) => rect.spec_get_border_left(
                whole,
            ) == v,
            Some(CssPropertyValue::Exact(Length::Percent(p))) => rect.spec_get_border_left(
                whole,
            ) == p.spec_over(S::spec_hundred()).spec_times(whole),
            _ => rect.spec_get_border_left(whole) == S::spec_zero(),
        },
        match rect.border_right {
            Some(CssPropertyValue::Exact(Length::Absolute(v))) => rect.spec_get_border_right(
                whole,
            ) == v,
            Some(CssPropertyValue::Exact(Length::Percent(p))) => rect.spec_get_border_right(
                whole,
            ) == p.spec_over(S::spec_hundred()).spec_times(whole),
            _ => rect.spec_get_border_right(whole) == S::spec_zero(),
        },
{
}

/// Every side of a height is what its own property says: a number of pixels as it is,
/// whatever its sign, a percentage of the whole height, or 0 for a property that is not
/// set or only a keyword.
pub proof fn law_sides_of_height<S: Scalar>(rect: HeightCalculatedRect<S>, whole: S)
    ensures
        match rect.margin_top {
            Some(CssPropertyValue::Exact(Length::Absolute(v))) => rect.spec_get_margin_top(
                whole,
            ) == v,
            Some(CssPropertyValue::Exact(Length::Percent(p))) => rect.spec_get_margin_top(
                whole,
            ) == p.spec_over(S::spec_hundred()).spec_times(whole),
            _ => rect.spec_get_margin_top(whole) == S::spec_zero(),
        },
        match rect.margin_bottom {
            Some(CssPropertyValue::Exact(Length::Absolute(v))) => rect.spec_get_margin_bottom(
                whole,
            ) == v,
            Some(CssPropertyValue::Exact(Length::Percent(p))) => rect.spec_get_margin_bottom(
                whole,
            ) == p.spec_over(S::spec_hundred()).spec_times(whole),
            _ => rect.spec_get_margin_bottom(whole) == S::spec_zero(),
        },
        match rect.padding_top {
            Some(CssPropertyValue::Exact(Length::Absolute(v))) => rect.spec_get_raw_padding_top(
                whole,
            ) == v,
            Some(CssPropertyValue::Exact(Length::Percent(p))) => rect.spec_get_raw_padding_top(
                whole,
            ) == p.spec_over(S::spec_hundred()).spec_times(whole),
            _ => rect.spec_get_raw_padding_top(whole) == S::spec_zero(),
        },
        match rect.padding_bottom {
            Some(CssPropertyValue::Exact(Length::Absolute(v))) => rect.spec_get_raw_padding_bottom(
                whole,
            ) == v,
            Some(CssPropertyValue::Exact(Length::Percent(p))) => rect.spec_get_raw_padding_bottom(
                whole,
            ) == p.spec_over(S::spec_hundred()).spec_times(whole),
            _ => rect.spec_get_raw_padding_bottom(whole) == S::spec_zero(),
        },
        match rect.border_top {
            Some(CssPropertyValue::Exact(Length::Absolute(v))) => rect.spec_get_border_top(
                whole,
            ) == v,
            Some(CssPropertyValue::Exact(Length::Percent(p))) => rect.spec_get_border_top(
                whole,
            ) == p.spec_over(S::spec_hundred()).spec_times(whole),
            _ => rect.spec_get_border_top(whole) == S::spec_zero(),
        },
        match rect.border_bottom {
            Some(CssPropertyValue::Exact(Length::Absolute(v))) => rect.spec_get_border_bottom(
                whole,
            ) == v,
            Some(CssPropertyValue::Exact(Length::Percent(p))) => rect.spec_get_border_bottom(
                whole,
            ) == p.spec_over(S::spec_hundred()).spec_times(whole),
            _ => rect.spec_get_border_bottom(whole) == S::spec_zero(),
        },
{
}

/// The sums of the sides of a width: the padding of a side holds the border of that
/// side, what both sides have together is the sum of the two, and the flex basis is the
/// inner size with all of it.
pub proof fn law_sums_of_width<S: Ring>(rect: WidthCalculatedRect<S>, whole: S)
    ensures
        ({
            let ml = rect.spec_get_margin_left(whole);
            let mr = rect.spec_get_margin_right(whole);
            let pl = rect.spec_get_raw_padding_left(whole);
            let pr = rect.spec_get_raw_padding_right(whole);
            let bl = rect.spec_get_border_left(whole);
            let br = rect.spec_get_border_right(whole);
            &&& rect.spec_get_padding_left(whole) == pl.spec_plus(bl)
            &&& rect.spec_get_padding_right(whole) == pr.spec_plus(br)
            &&& rect.spec_get_horizontal_margin(whole) == ml.spec_plus(mr)
            &&& rect.spec_get_horizontal_border(whole) == bl.spec_plus(br)
            &&& rect.spec_get_horizontal_padding(whole) == pl.spec_plus(bl).spec_plus(
                pr.spec_plus(br),
            )
            &&& rect.spec_get_flex_basis_horizontal(whole) == rect.min_inner_size_px.spec_plus(
                ml,
            ).spec_plus(mr).spec_plus(pl).spec_plus(pr).spec_plus(bl).spec_plus(br)
            &&& rect.spec_total() == rect.min_inner_size_px.spec_plus(rect.flex_grow_px)
        }),
{
}

/// A width whose sides are all set in pixels has the flex basis that adds all of
/// these up, whatever their signs and whatever the parent has; with nothing set, it is
/// the inner size.
pub proof fn law_flex_basis_of_width_in_pixels<S: Ring>(
    rect: WidthCalculatedRect<S>,
    ml: S,
    mr: S,
    pl: S,
    pr: S,
    bl: S,
    br: S,
    whole: S,
)
    ensures
        (WidthCalculatedRect {
            margin_left: Some(CssPropertyValue::Exact(Length::Absolute(ml))),
            margin_right: Some(CssPropertyValue::Exact(Length::Absolute(mr))),
            padding_left: Some(CssPropertyValue::Exact(Length::Absolute(pl))),
            padding_right: Some(CssPropertyValue::Exact(Length::Absolute(pr))),
            border_left: Some(CssPropertyValue::Exact(Length::Absolute(bl))),
            border_right: Some(CssPropertyValue::Exact(Length::Absolute(br))),
            ..rect
        }).spec_get_flex_basis_horizontal(whole) == rect.min_inner_size_px.spec_plus(ml).spec_plus(
            mr,
        ).spec_plus(pl).spec_plus(pr).spec_plus(bl).spec_plus(br),
        (WidthCalculatedRect {
            margin_left: None,
            margin_right: None,
            padding_left: None,
            padding_right: None,
            border_left: None,
            border_right: None,
            ..rect
        }).spec_get_flex_basis_horizontal(whole) == rect.min_inner_size_px,
{
    S::plus_zero(rect.min_inner_size_px);
}

/// The sums of the sides of a height: the padding of a side holds the border of that
/// side, what both sides have together is the sum of the two, and the flex basis is the
/// inner size with all of it.
pub proof fn law_sums_of_height<S: Ring>(rect: HeightCalculatedRect<S>, whole: S)
    ensures
        ({
            let ml = rect.spec_get_margin_top(whole);
            let mr = rect.spec_get_margin_bottom(whole);
            let pl = rect.spec_get_raw_padding_top(whole);
            let pr = rect.spec_get_raw_padding_bottom(whole);
            let bl = rect.spec_get_border_top(whole);
            let br = rect.spec_get_border_bottom(whole);
            &&& rect.spec_get_padding_top(whole) == pl.spec_plus(bl)
            &&& rect.spec_get_padding_bottom(whole) == pr.spec_plus(br)
            &&& rect.spec_get_vertical_margin(whole) == ml.spec_plus(mr)
            &&& rect.spec_get_vertical_border(whole) == bl.spec_plus(br)
            &&& rect.spec_get_vertical_padding(whole) == pl.spec_plus(bl).spec_plus(
                pr.spec_plus(br),
            )
            &&& rect.spec_get_flex_basis_vertical(whole) == rect.min_inner_size_px.spec_plus(
                ml,
            ).spec_plus(mr).spec_plus(pl).spec_plus(pr).spec_plus(bl).spec_plus(br)
            &&& rect.spec_total() == rect.min_inner_size_px.spec_plus(rect.flex_grow_px)
        }),
{
}

/// A height whose sides are all set in pixels has the flex basis that adds all of
/// these up, whatever their signs and whatever the parent has; with nothing set, it is
/// the inner size.
pub proof fn law_flex_basis_of_height_in_pixels<S: Ring>(
    rect: HeightCalculatedRect<S>,
    ml: S,
    mr: S,
    pl: S,
    pr: S,
    bl: S,
    br: S,
    whole: S,
)
    ensures
        (HeightCalculatedRect {
            margin_top: Some(CssPropertyValue::Exact(Length::Absolute(ml))),
            margin_bottom: Some(CssPropertyValue::Exact(Length::Absolute(mr))),
            padding_top: Some(CssPropertyValue::Exact(Length::Absolute(pl))),
            padding_bottom: Some(CssPropertyValue::Exact(Length::Absolute(pr))),
            border_top: Some(CssPropertyValue::Exact(Length::Absolute(bl))),
            border_bottom: Some(CssPropertyValue::Exact(Length::Absolute(br))),
            ..rect
        }).spec_get_flex_basis_vertical(whole) == rect.min_inner_size_px.spec_plus(ml).spec_plus(
            mr,
        ).spec_plus(pl).spec_plus(pr).spec_plus(bl).spec_plus(br),
        (HeightCalculatedRect {
            margin_top: None,
            margin_bottom: None,
            padding_top: None,
            padding_bottom: None,
            border_top: None,
            border_bottom: None,
            ..rect
        }).spec_get_flex_basis_vertical(whole) == rect.min_inner_size_px,
{
    S::plus_zero(rect.min_inner_size_px);
}

/// What both sides of a rectangle take together: the two of each direction, and only
/// these.
pub proof fn law_opposite_sides_add_up<S: Scalar>(top: S, left: S, right: S, bottom: S)
    ensures
        (ResolvedOffsets { top, left, right, bottom }).spec_total_vertical() == top.spec_plus(
            bottom,
        ),
        (ResolvedOffsets { top, left, right, bottom }).spec_total_horizontal() == left.spec_plus(
            right,
        ),
{
}

/// Each kind of position has its own two offsets: the relative one from the rectangle
/// that it is positioned against, and the static one in the window.
pub proof fn law_offsets_of_every_position<S: Scalar>(
    x_offset: S,
    y_offset: S,
    static_x_offset: S,
    static_y_offset: S,
)
    ensures
        ({
            let p = PositionInfo::Static { x_offset, y_offset, static_x_offset, static_y_offset };
            &&& p.relative_offset() == (x_offset, y_offset)
            &&& p.static_offset() == (static_x_offset, static_y_offset)
        }),
        ({
            let p = PositionInfo::Fixed { x_offset, y_offset, static_x_offset, static_y_offset };
            &&& p.relative_offset() == (x_offset, y_offset)
            &&& p.static_offset() == (static_x_offset, static_y_offset)
        }),
        ({
            let p = PositionInfo::Absolute {
                x_offset,
                y_offset,
                static_x_offset,
                static_y_offset,
            };
            &&& p.relative_offset() == (x_offset, y_offset)
            &&& p.static_offset() == (static_x_offset, static_y_offset)
        }),
        ({
            let p = PositionInfo::Relative {
                x_offset,
                y_offset,
                static_x_offset,
                static_y_offset,
            };
            &&& p.relative_offset() == (x_offset, y_offset)
            &&& p.static_offset() == (static_x_offset, static_y_offset)
        }),
{
}

/// A rectangle lies in the window where the static offset of its position says, whatever
/// the kind of position; in whole pixels, its corner and its size are rounded one by one.
pub proof fn law_rectangle_in_window<S: Scalar>(rect: PositionedRectangle<S>)
    ensures
        ({
            let (x, y) = match rect.position {
                PositionInfo::Static { static_x_offset, static_y_offset, .. } => (
                    static_x_offset,
                    static_y_offset,
                ),
                PositionInfo::Fixed { static_x_offset, static_y_offset, .. } => (
                    static_x_offset,
                    static_y_offset,
                ),
                PositionInfo::Absolute { static_x_offset, static_y_offset, .. } => (
                    static_x_offset,
                    static_y_offset,
                ),
                PositionInfo::Relative { static_x_offset, static_y_offset, .. } => (
                    static_x_offset,
                    static_y_offset,
                ),
            };
            &&& rect.logical_static_offset() == LogicalPosition { x, y }
            &&& rect.static_offset() == LayoutPoint {
                x: x.spec_round_to_isize(),
                y: y.spec_round_to_isize(),
            }
        }),
        rect.content_size() == (LayoutSize {
            width: rect.size.width.spec_round_to_isize(),
            height: rect.size.height.spec_round_to_isize(),
        }),
{
}

/// The kinds of position are named as in a style.
pub proof fn law_positions_have_their_keywords<S: Scalar>(position: PositionInfo<S>)
    ensures
        position is Static ==> position.keyword() == "static"@,
        position is Fixed ==> position.keyword() == "fixed"@,
        position is Absolute ==> position.keyword() == "absolute"@,
        position is Relative ==> position.keyword() == "relative"@,
{
}

/// Points are subtracted and divided coordinate by coordinate, and the point and the size
/// 0 have 0 in both.
pub proof fn law_points_by_coordinates<S: Scalar>(
    p: LogicalPosition<S>,
    q: LogicalPosition<S>,
    d: S,
)
    ensures
        p.spec_minus(q).x == p.x.spec_minus(q.x),
        p.spec_minus(q).y == p.y.spec_minus(q.y),
        p.spec_over(d).x == p.x.spec_over(d),
        p.spec_over(d).y == p.y.spec_over(d),
        LogicalPosition::<S>::spec_zero().x == S::spec_zero(),
        LogicalPosition::<S>::spec_zero().y == S::spec_zero(),
        LogicalSize::<S>::spec_zero().width == S::spec_zero(),
        LogicalSize::<S>::spec_zero().height == S::spec_zero(),
{
}

/// The mode of the overflow makes no difference to its amount: children overflow if and
/// only if they were measured and the amount is not negative.
pub proof fn law_overflow_in_every_mode(amount: Option<isize>, info: DirectionalOverflowInfo)
    requires
        info == (DirectionalOverflowInfo::Scroll { amount }) || info
            == (DirectionalOverflowInfo::Auto { amount }) || info
            == (DirectionalOverflowInfo::Hidden { amount }) || info
            == (DirectionalOverflowInfo::Visible { amount }),
    ensures
        info.amount() == amount,
        info.spec_is_none() <==> amount is None,
        info.spec_is_negative() <==> !exists|n: isize| n >= 0 && amount == Some(n),
{
    if let Some(n) = amount {
        if n >= 0 {
            assert(n >= 0 && amount == Some(n));
        }
    }
}

/// The number that decimal digits stand for.
pub open spec fn number_read(text: Seq<char>) -> nat
    decreases text.len(),
{
    if text.len() == 0 {
        0
    } else {
        (number_read(text.drop_last()) * 10 + (text.last() as nat - '0' as nat)) as nat
    }
}

/// A number is displayed so that it can be read back: by decimal digits only, without
/// leading zeros.
pub proof fn law_numbers_read_back(n: nat)
    ensures
        number_read(decimal(n)) == n,
        decimal(n).len() > 0,
        forall|k: int| 0 <= k < decimal(n).len() ==> '0' <= #[trigger] decimal(n)[k] <= '9',
        decimal(n)[0] == '0' ==> n == 0,
    decreases n,
{
    if n < 10 {
        let text = decimal(n);
        assert(text.drop_last() =~= Seq::<char>::empty());
        assert(text.last() == digit(n));
        assert(number_read(text.drop_last()) == 0);
    } else {
        law_numbers_read_back(n / 10);
        let front = decimal(n / 10);
        let text = decimal(n);
        assert(text == front.push(digit(n % 10)));
        assert(text.drop_last() =~= front);
        assert(text.last() == digit(n % 10));
        assert(text[0] == front[0]);
        assert forall|k: int| 0 <= k < text.len() implies '0' <= #[trigger] text[k] <= '9' by {
            if k < front.len() {
                assert(text[k] == front[k]);
            }
        }
    }
}

/// The lengths of no sides are 0, and no shadows are none on every side.
pub proof fn law_nothing_on_any_side<S: Scalar>()
    ensures
        ResolvedOffsets::<S>::spec_zero().top == S::spec_zero(),
        ResolvedOffsets::<S>::spec_zero().left == S::spec_zero(),
        ResolvedOffsets::<S>::spec_zero().right == S::spec_zero(),
        ResolvedOffsets::<S>::spec_zero().bottom == S::spec_zero(),
        StyleBoxShadowOffsets::<S>::spec_none().top is None,
        StyleBoxShadowOffsets::<S>::spec_none().left is None,
        StyleBoxShadowOffsets::<S>::spec_none().right is None,
        StyleBoxShadowOffsets::<S>::spec_none().bottom is None,
{
}

} // verus!
