//! Laws of constraints, box sizes, text alignment and overflow.
use crate::constraint::WhConstraint;
use crate::formal_sum::{group_formal_sum, lemma_same, FormalSum};
use crate::geometry::LogicalSize;
use crate::overflow::DirectionalOverflowInfo;
use crate::rect::PositionedRectangle;
use crate::ring::{
    lemma_distributes, lemma_factor_cancels, lemma_minus_plus, lemma_negated, lemma_one_times,
    lemma_plus_interchanges, lemma_regroups, lemma_times_zero, lemma_zero_plus, Field, Ordered,
    Ring,
};
use crate::scalar::Scalar;
use crate::solved::{HeightCalculatedRect, WidthCalculatedRect};
use crate::style::{
    Length, StyleTextAlignmentHorz, StyleTextAlignmentVert, StyleTransformOrigin,
};
use crate::text::{
    horizontal_shift_multiplier, vertical_shift_multiplier, InlineTextLayout, InlineTextLine,
};
use crate::transform_laws::lemma_swap_last;
use vstd::prelude::*;

verus! {

/// Whether `b` lies between `a` and `c`, whichever of these is larger.
pub open spec fn between<S: Ordered>(a: S, b: S, c: S) -> bool {
    a.at_most(b) && b.at_most(c) || c.at_most(b) && b.at_most(a)
}

/// A calculated size never violates the constraint: it stays within the available
/// space, which takes precedence, and it has the needed space wherever that is
/// available. A size that already meets the constraint is kept; in place of any other,
/// the nearest one that meets it is taken: the size lies between the one that was asked
/// for and every one that meets the constraint.
pub proof fn law_constraint_is_met<S: Ordered>(
    constraint: WhConstraint<S>,
    relative_parent_width: S,
)
    ensures
        ({
            let size = constraint.spec_calculate_from_relative_parent(relative_parent_width);
            match constraint {
                WhConstraint::Between(min, max) => {
                    &&& size.at_most(max)
                    &&& min.at_most(max) ==> min.at_most(size)
                    &&& min.at_most(relative_parent_width) && relative_parent_width.at_most(max)
                        ==> size == relative_parent_width
                    &&& forall|other: S|
                        #![trigger other.at_most(max)]
                        min.at_most(other) && other.at_most(max) ==> between(
                            relative_parent_width,
                            size,
                            other,
                        )
                },
                WhConstraint::EqualTo(exact) => size == exact,
                WhConstraint::Unconstrained => size == relative_parent_width,
            }
        }),
        constraint.spec_max_available_space() matches Some(max)
            ==> constraint.spec_calculate_from_relative_parent(relative_parent_width).at_most(max),
{
    if let WhConstraint::Between(min, max) = constraint {
        let width = relative_parent_width;
        let raised = width.spec_maximum(min);
        let size = raised.spec_minimum(max);
        S::extremes_follow_order(width, min);
        S::extremes_follow_order(raised, max);
        S::order_is_total(width, min);
        S::order_is_total(width, width);
        S::order_is_total(raised, max);
        S::order_is_total(max, max);
        S::order_is_total(min, min);
        assert forall|other: S|
            #![trigger other.at_most(max)]
            min.at_most(other) && other.at_most(max) implies between(width, size, other) by {
            S::order_is_transitive(min, other, max);
            S::order_is_total(min, max);
            if width.at_most(min) {
                S::order_is_transitive(width, min, other);
            } else {
                S::order_is_total(width, other);
            }
        }
    } else if let WhConstraint::EqualTo(exact) = constraint {
        S::order_is_total(exact, exact);
    }
}

/// Among whole numbers, no size that meets the constraint is nearer to the one that was
/// asked for than the calculated one.
pub proof fn law_constraint_takes_nearest(min: i64, max: i64, width: i64, other: i64)
    requires
        min <= other <= max,
    ensures
        ({
            let size = WhConstraint::Between(min, max).spec_calculate_from_relative_parent(width);
            &&& size <= width ==> width - size <= if other <= width {
                width - other
            } else {
                other - width
            }
            &&& width <= size ==> size - width <= if other <= width {
                width - other
            } else {
                other - width
            }
        }),
{
}

/// Calculating the size from an already calculated size changes nothing.
pub proof fn law_constraint_is_idempotent<S: Ordered>(constraint: WhConstraint<S>, width: S)
    ensures
        constraint.spec_calculate_from_relative_parent(
            constraint.spec_calculate_from_relative_parent(width),
        ) == constraint.spec_calculate_from_relative_parent(width),
{
    if let WhConstraint::Between(min, max) = constraint {
        let raised = width.spec_maximum(min);
        let size = raised.spec_minimum(max);
        let raised_again = size.spec_maximum(min);
        S::extremes_follow_order(width, min);
        S::extremes_follow_order(raised, max);
        S::extremes_follow_order(size, min);
        S::extremes_follow_order(raised_again, max);
        S::order_is_total(width, min);
        S::order_is_total(raised, max);
        S::order_is_total(size, min);
        S::order_is_total(min, max);
        S::order_is_total(max, max);
        S::order_is_total(min, min);
    }
}

/// The needed space is the smallest of all sizes that a constraint lets a node have, and
/// the available space is the largest: no width of the parent leads to less or to more,
/// and some width leads to each of them. Without a largest size, every size can be had.
pub proof fn law_needed_and_available_space<S: Ordered>(
    constraint: WhConstraint<S>,
    width: S,
)
    requires
        constraint matches WhConstraint::Between(min, max) ==> min.at_most(max),
    ensures
        !(constraint is Unconstrained) ==> ({
            let least = constraint.spec_min_needed_space().unwrap();
            &&& constraint.spec_min_needed_space() is Some
            &&& least.at_most(constraint.spec_calculate_from_relative_parent(width))
            &&& constraint.spec_calculate_from_relative_parent(least) == least
        }),
        constraint.spec_max_available_space() matches Some(most) ==> {
            &&& constraint.spec_calculate_from_relative_parent(width).at_most(most)
            &&& constraint.spec_calculate_from_relative_parent(most) == most
        },
        constraint.spec_max_available_space() is None ==> {
            &&& constraint is Unconstrained
            &&& constraint.spec_calculate_from_relative_parent(width) == width
            &&& constraint.spec_min_needed_space() == Some(S::spec_zero())
        },
{
    match constraint {
        WhConstraint::Between(min, max) => {
            law_constraint_is_met(constraint, width);
            law_constraint_is_met(constraint, min);
            law_constraint_is_met(constraint, max);
            S::order_is_total(min, min);
            S::order_is_total(max, max);
        },
        WhConstraint::EqualTo(exact) => {
            S::order_is_total(exact, exact);
        },
        WhConstraint::Unconstrained => {},
    }
}

/// The bounds of a constraint are the space that it needs and the space that it leaves,
/// whichever of them is larger; a fixed constraint needs and leaves its size; without a
/// constraint nothing is needed and nothing limits the size.
pub proof fn law_bounds_are_kept_apart<S: Scalar>(min: S, max: S)
    ensures
        WhConstraint::Between(min, max).spec_min_needed_space() == Some(min),
        WhConstraint::Between(min, max).spec_max_available_space() == Some(max),
        WhConstraint::EqualTo(min).spec_min_needed_space() == Some(min),
        WhConstraint::EqualTo(min).spec_max_available_space() == Some(min),
        WhConstraint::<S>::Unconstrained.spec_min_needed_space() == Some(S::spec_zero()),
        WhConstraint::<S>::Unconstrained.spec_max_available_space() is None,
{
}

/// Where more is needed than is available, what is available is taken.
pub proof fn law_available_space_takes_precedence<S: Ordered>(min: S, max: S, width: S)
    requires
        max.at_most(min),
    ensures
        WhConstraint::Between(min, max).spec_calculate_from_relative_parent(width) == max,
{
    let raised = width.spec_maximum(min);
    S::extremes_follow_order(width, min);
    S::extremes_follow_order(raised, max);
    S::order_is_total(width, min);
    S::order_is_total(raised, max);
    if !width.at_most(min) {
        S::order_is_transitive(max, min, width);
    }
}

/// A fixed constraint needs exactly the space that it leaves available, and takes it
/// whatever the parent has.
pub proof fn law_fixed_constraint_is_exact<S: Scalar>(constraint: WhConstraint<S>, width: S)
    requires
        constraint is EqualTo,
    ensures
        constraint.spec_min_needed_space() == constraint.spec_max_available_space(),
        constraint.spec_max_available_space() == Some(
            constraint.spec_calculate_from_relative_parent(width),
        ),
{
}

/// Children that cannot be measured, because there are none, do not overflow.
pub proof fn law_no_children_no_overflow(info: DirectionalOverflowInfo)
    requires
        info.spec_is_none(),
    ensures
        info.spec_is_negative(),
{
}

/// The horizontal flex basis is the inner width with the margin and the padding, which
/// holds the border.
pub proof fn law_flex_basis_horizontal<S: Ring>(rect: WidthCalculatedRect<S>, parent_width: S)
    ensures
        rect.spec_get_flex_basis_horizontal(parent_width) == rect.min_inner_size_px.spec_plus(
            rect.spec_get_horizontal_margin(parent_width),
        ).spec_plus(rect.spec_get_horizontal_padding(parent_width)),
{
    lemma_seven_parts(
        rect.min_inner_size_px,
        rect.spec_get_margin_left(parent_width),
        rect.spec_get_margin_right(parent_width),
        rect.spec_get_raw_padding_left(parent_width),
        rect.spec_get_raw_padding_right(parent_width),
        rect.spec_get_border_left(parent_width),
        rect.spec_get_border_right(parent_width),
    );
}

/// The vertical flex basis is the inner height with the margin and the padding, which
/// holds the border.
pub proof fn law_flex_basis_vertical<S: Ring>(rect: HeightCalculatedRect<S>, parent_height: S)
    ensures
        rect.spec_get_flex_basis_vertical(parent_height) == rect.min_inner_size_px.spec_plus(
            rect.spec_get_vertical_margin(parent_height),
        ).spec_plus(rect.spec_get_vertical_padding(parent_height)),
{
    lemma_seven_parts(
        rect.min_inner_size_px,
        rect.spec_get_margin_top(parent_height),
        rect.spec_get_margin_bottom(parent_height),
        rect.spec_get_raw_padding_top(parent_height),
        rect.spec_get_raw_padding_bottom(parent_height),
        rect.spec_get_border_top(parent_height),
        rect.spec_get_border_bottom(parent_height),
    );
}

proof fn lemma_seven_parts<S: Ring>(a: S, m0: S, m1: S, p0: S, p1: S, b0: S, b1: S)
    ensures
        a.spec_plus(m0).spec_plus(m1).spec_plus(p0).spec_plus(p1).spec_plus(b0).spec_plus(b1)
            == a.spec_plus(m0.spec_plus(m1)).spec_plus(
            p0.spec_plus(b0).spec_plus(p1.spec_plus(b1)),
        ),
{
    let am = a.spec_plus(m0).spec_plus(m1);
    S::plus_associates(a, m0, m1);
    S::plus_associates(am, p0, p1);
    S::plus_associates(am.spec_plus(p0.spec_plus(p1)), b0, b1);
    S::plus_associates(am, p0.spec_plus(p1), b0.spec_plus(b1));
    lemma_plus_interchanges(p0, p1, b0, b1);
}

/// A hundred percent are the whole of what they are resolved against, and no percent are
/// nothing of it; percentages add up.
pub proof fn law_percentages_are_shares<S: Field>(a: S, b: S, whole: S)
    ensures
        Length::Percent(S::spec_hundred()).pixels(whole) == whole,
        Length::Percent(S::spec_zero()).pixels(whole) == S::spec_zero(),
        Length::Percent(a).pixels(whole).spec_plus(Length::Percent(b).pixels(whole))
            == Length::Percent(a.spec_plus(b)).pixels(whole),
{
    let hundred = S::spec_hundred();
    let (u, v) = (a.spec_over(hundred), b.spec_over(hundred));
    S::divisors_are_not_zero();
    S::over_undoes_times(hundred, hundred);
    lemma_one_times(hundred);
    lemma_factor_cancels(hundred.spec_over(hundred), S::spec_one(), hundred);
    lemma_one_times(whole);
    S::over_undoes_times(S::spec_zero(), hundred);
    lemma_times_zero(hundred);
    lemma_factor_cancels(S::spec_zero().spec_over(hundred), S::spec_zero(), hundred);
    lemma_times_zero(whole);
    S::over_undoes_times(a, hundred);
    S::over_undoes_times(b, hundred);
    S::over_undoes_times(a.spec_plus(b), hundred);
    lemma_distributes(u, v, hundred);
    lemma_factor_cancels(a.spec_plus(b).spec_over(hundred), u.spec_plus(v), hundred);
    lemma_distributes(u, v, whole);
}

/// Without any other origin, a node is transformed about its middle.
pub proof fn law_default_origin_is_the_middle<S: Field>(width: S, height: S)
    ensures
        ({
            let origin = StyleTransformOrigin::<S>::spec_default();
            &&& origin.x.pixels(width) == middle(S::spec_zero(), width)
            &&& origin.y.pixels(height) == middle(S::spec_zero(), height)
        }),
{
    let hundred = S::spec_hundred();
    let two = S::spec_two();
    let half = S::spec_half();
    let fifty = hundred.spec_over(two);
    let share = fifty.spec_over(hundred);
    S::divisors_are_not_zero();
    S::over_undoes_times(hundred, two);
    S::over_undoes_times(fifty, hundred);
    lemma_swap_last(share, hundred, two);
    lemma_one_times(hundred);
    lemma_factor_cancels(share.spec_times(two), S::spec_one(), hundred);
    S::half_doubles_to_one();
    lemma_factor_cancels(share, half, two);
    lemma_zero_plus(half.spec_times(width));
    lemma_zero_plus(half.spec_times(height));
}

/// Aligning lines horizontally only moves them sideways: their number, sizes, words and
/// vertical positions stay.
pub proof fn law_horizontal_alignment_moves_sideways<S: Scalar>(
    lines: Seq<InlineTextLine<S>>,
    parent_size: LogicalSize<S>,
    alignment: StyleTextAlignmentHorz,
)
    ensures
        ({
            let aligned = InlineTextLayout::lines_aligned_horizontal(lines, parent_size, alignment);
            &&& aligned.len() == lines.len()
            &&& forall|n: int|
                0 <= n < lines.len() ==> #[trigger] aligned[n] == lines[n].at_x(
                    aligned[n].bounds.origin.x,
                )
            &&& forall|n: int|
                0 <= n < lines.len() ==> {
                    &&& (#[trigger] aligned[n]).bounds.origin.y == lines[n].bounds.origin.y
                    &&& aligned[n].bounds.size.width == lines[n].bounds.size.width
                    &&& aligned[n].bounds.size.height == lines[n].bounds.size.height
                    &&& aligned[n].word_start == lines[n].word_start
                    &&& aligned[n].word_end == lines[n].word_end
                }
        }),
        alignment is Left ==> InlineTextLayout::lines_aligned_horizontal(
            lines,
            parent_size,
            alignment,
        ) == lines,
{
}

/// Aligning lines vertically only moves them up or down: their number, sizes, words and
/// horizontal positions stay.
pub proof fn law_vertical_alignment_moves_down<S: Scalar>(
    lines: Seq<InlineTextLine<S>>,
    parent_size: LogicalSize<S>,
    alignment: StyleTextAlignmentVert,
)
    ensures
        ({
            let aligned = InlineTextLayout::lines_aligned_vertical(lines, parent_size, alignment);
            &&& aligned.len() == lines.len()
            &&& forall|n: int|
                0 <= n < lines.len() ==> #[trigger] aligned[n] == lines[n].at_y(
                    aligned[n].bounds.origin.y,
                )
            &&& forall|n: int|
                0 <= n < lines.len() ==> {
                    &&& (#[trigger] aligned[n]).bounds.origin.x == lines[n].bounds.origin.x
                    &&& aligned[n].bounds.size.width == lines[n].bounds.size.width
                    &&& aligned[n].bounds.size.height == lines[n].bounds.size.height
                    &&& aligned[n].word_start == lines[n].word_start
                    &&& aligned[n].word_end == lines[n].word_end
                }
        }),
        alignment is Top ==> InlineTextLayout::lines_aligned_vertical(
            lines,
            parent_size,
            alignment,
        ) == lines,
{
}

/// Lines that are aligned to the start do not move at all; in the middle they move by
/// half of the room, and at the end by all of it.
pub proof fn law_shares_of_the_room<S: Field>(
    horizontal: StyleTextAlignmentHorz,
    vertical: StyleTextAlignmentVert,
)
    ensures
        match horizontal_shift_multiplier::<S>(horizontal) {
            None => horizontal is Left,
            Some(share) => if horizontal is Center {
                share.spec_plus(share) == S::spec_one()
            } else {
                horizontal is Right && share == S::spec_one()
            },
        },
        match vertical_shift_multiplier::<S>(vertical) {
            None => vertical is Top,
            Some(share) => if vertical is Center {
                share.spec_plus(share) == S::spec_one()
            } else {
                vertical is Bottom && share == S::spec_one()
            },
        },
{
    let half = S::spec_half();
    S::half_doubles_to_one();
    S::two_is_one_and_one();
    S::times_distributes(half, S::spec_one(), S::spec_one());
    S::times_one(half);
}

/// A line that starts at 0 ends at the right edge of the parent after it was aligned to
/// the right; one that starts elsewhere ends as far from that edge as it started from 0.
pub proof fn law_right_alignment_ends_at_parent<S: Ring>(
    lines: Seq<InlineTextLine<S>>,
    parent_size: LogicalSize<S>,
    n: int,
)
    requires
        0 <= n < lines.len(),
    ensures
        ({
            let line = InlineTextLayout::lines_aligned_horizontal(
                lines,
                parent_size,
                StyleTextAlignmentHorz::Right,
            )[n];
            line.bounds.origin.x.spec_plus(line.bounds.size.width)
                == lines[n].bounds.origin.x.spec_plus(parent_size.width)
        }),
{
    let x = lines[n].bounds.origin.x;
    let w = lines[n].bounds.size.width;
    let p = parent_size.width;
    lemma_one_times(p.spec_minus(w));
    lemma_regroups(x, p, w);
    lemma_minus_plus(x.spec_plus(p), w);
}

/// After they were aligned to the bottom, the last line starts at the bottom edge of the
/// parent.
pub proof fn law_bottom_alignment_reaches_parent<S: Ring>(
    lines: Seq<InlineTextLine<S>>,
    parent_size: LogicalSize<S>,
)
    requires
        lines.len() > 0,
    ensures
        InlineTextLayout::lines_aligned_vertical(
            lines,
            parent_size,
            StyleTextAlignmentVert::Bottom,
        ).last().bounds.origin.y == parent_size.height,
{
    let y = lines.last().bounds.origin.y;
    let h = parent_size.height;
    S::times_one(h.spec_minus(y));
    S::plus_commutes(y, h.spec_minus(y));
    lemma_minus_plus(h, y);
}

/// The middle of what starts at `start` and has the size `size`.
pub open spec fn middle<S: Scalar>(start: S, size: S) -> S {
    start.spec_plus(S::spec_half().spec_times(size))
}

/// The middle is as far from the end as it is from the start.
pub proof fn law_middle_halves<S: Field>(start: S, size: S)
    ensures
        middle(start, size).spec_minus(start) == start.spec_plus(size).spec_minus(
            middle(start, size),
        ),
{
    let half = S::spec_half();
    let part = half.spec_times(size);
    S::half_doubles_to_one();
    S::two_is_one_and_one();
    S::times_commutes(half, S::spec_two());
    lemma_distributes(S::spec_one(), S::spec_one(), half);
    lemma_one_times(half);
    lemma_distributes(half, half, size);
    lemma_one_times(size);
    assert(part.spec_plus(part) == size);
    S::plus_commutes(start, part);
    lemma_regroups(part, start, start);
    lemma_negated(start, start);
    S::plus_zero(part);
    lemma_regroups(start.spec_plus(size), start, part);
    S::plus_commutes(start, size);
    lemma_regroups(size, start, start);
    S::plus_zero(size);
    lemma_regroups(part, part, part);
    lemma_negated(part, part);
}

/// A line that starts at 0 has its middle in the middle of the parent after it was
/// centred; one that starts elsewhere has it as far from there as it started from 0.
pub proof fn law_centring_moves_to_the_middle<S: Field>(
    lines: Seq<InlineTextLine<S>>,
    parent_size: LogicalSize<S>,
    n: int,
)
    requires
        0 <= n < lines.len(),
    ensures
        ({
            let line = InlineTextLayout::lines_aligned_horizontal(
                lines,
                parent_size,
                StyleTextAlignmentHorz::Center,
            )[n];
            middle(line.bounds.origin.x, line.bounds.size.width) == middle(
                lines[n].bounds.origin.x,
                parent_size.width,
            )
        }),
{
    let x = lines[n].bounds.origin.x;
    let w = lines[n].bounds.size.width;
    let p = parent_size.width;
    let half = S::spec_half();
    lemma_distributes(p, w, half);
    lemma_regroups(x, half.spec_times(p), half.spec_times(w));
    lemma_minus_plus(middle(x, p), half.spec_times(w));
}

/// After lines were centred vertically, the middle between 0 and where the last line
/// starts is the middle of the parent: every line has moved by the distance between the
/// two.
pub proof fn law_vertical_centring_moves_to_the_middle<S: Field>(
    lines: Seq<InlineTextLine<S>>,
    parent_size: LogicalSize<S>,
    n: int,
)
    requires
        0 <= n < lines.len(),
    ensures
        ({
            let aligned = InlineTextLayout::lines_aligned_vertical(
                lines,
                parent_size,
                StyleTextAlignmentVert::Center,
            );
            middle(aligned[n].bounds.origin.y, lines.last().bounds.origin.y) == middle(
                lines[n].bounds.origin.y,
                parent_size.height,
            )
        }),
{
    let y = lines[n].bounds.origin.y;
    let bottom = lines.last().bounds.origin.y;
    let h = parent_size.height;
    let half = S::spec_half();
    S::times_commutes(h.spec_minus(bottom), half);
    lemma_distributes(h, bottom, half);
    lemma_regroups(y, half.spec_times(h), half.spec_times(bottom));
    lemma_minus_plus(middle(y, h), half.spec_times(bottom));
}

/// Aligning lines vertically keeps the distances between them.
pub proof fn law_vertical_alignment_keeps_distances<S: Ring>(
    lines: Seq<InlineTextLine<S>>,
    parent_size: LogicalSize<S>,
    alignment: StyleTextAlignmentVert,
    a: int,
    b: int,
)
    requires
        0 <= a < lines.len(),
        0 <= b < lines.len(),
    ensures
        ({
            let aligned = InlineTextLayout::lines_aligned_vertical(lines, parent_size, alignment);
            aligned[b].bounds.origin.y.spec_minus(aligned[a].bounds.origin.y)
                == lines[b].bounds.origin.y.spec_minus(lines[a].bounds.origin.y)
        }),
{
    let aligned = InlineTextLayout::lines_aligned_vertical(lines, parent_size, alignment);
    if !(alignment is Top) {
        let multiplier = if alignment is Bottom {
            S::spec_one()
        } else {
            S::spec_half()
        };
        let shift = parent_size.height.spec_minus(
            InlineTextLayout::glyphs_vertical_bottom(lines),
        ).spec_times(multiplier);
        let ya = lines[a].bounds.origin.y;
        let yb = lines[b].bounds.origin.y;
        assert(aligned[a].bounds.origin.y == ya.spec_plus(shift));
        assert(aligned[b].bounds.origin.y == yb.spec_plus(shift));
        lemma_regroups(yb.spec_plus(shift), ya, shift);
        S::plus_commutes(ya, shift);
        lemma_regroups(yb.spec_plus(shift), shift, ya);
        lemma_regroups(yb, shift, shift);
        lemma_negated(shift, shift);
        S::plus_zero(yb);
    }
}

/// The background surrounds the content: it starts by the padding and the border to the
/// left of and above it, it ends by them to the right of and below it, and it keeps the
/// place in the window and the kind of positioning.
pub proof fn law_background_surrounds_content<S: Ring>(rect: PositionedRectangle<S>)
    ensures
        ({
            let (x, y) = rect.position.relative_offset();
            let (bx, by) = rect.background_position().relative_offset();
            &&& bx.spec_plus(rect.padding.left).spec_plus(rect.border_widths.left) == x
            &&& by.spec_plus(rect.padding.top).spec_plus(rect.border_widths.top) == y
            &&& bx.spec_plus(rect.background_width()) == x.spec_plus(rect.size.width).spec_plus(
                rect.padding.right,
            ).spec_plus(rect.border_widths.right)
            &&& by.spec_plus(rect.background_height()) == y.spec_plus(rect.size.height).spec_plus(
                rect.padding.bottom,
            ).spec_plus(rect.border_widths.bottom)
        }),
        rect.background_position().static_offset() == rect.position.static_offset(),
        rect.background_position() is Static == rect.position is Static,
        rect.background_position() is Fixed == rect.position is Fixed,
        rect.background_position() is Absolute == rect.position is Absolute,
        rect.background_position() is Relative == rect.position is Relative,
{
    let (x, y) = rect.position.relative_offset();
    lemma_surrounds(
        x,
        rect.size.width,
        rect.padding.left,
        rect.padding.right,
        rect.border_widths.left,
        rect.border_widths.right,
    );
    lemma_surrounds(
        y,
        rect.size.height,
        rect.padding.top,
        rect.padding.bottom,
        rect.border_widths.top,
        rect.border_widths.bottom,
    );
}

proof fn lemma_surrounds<S: Ring>(x: S, w: S, p0: S, p1: S, b0: S, b1: S)
    ensures
        ({
            let start = x.spec_plus(S::spec_zero().spec_minus(p0).spec_minus(b0));
            let size = w.spec_plus(p0.spec_plus(p1)).spec_plus(b0.spec_plus(b1));
            &&& start.spec_plus(p0).spec_plus(b0) == x
            &&& start.spec_plus(size) == x.spec_plus(w).spec_plus(p1).spec_plus(b1)
        }),
{
    broadcast use group_formal_sum;

    let zero = S::spec_zero();
    let n = FormalSum::<S>::none();
    lemma_regroups(x, zero.spec_minus(p0), b0);
    lemma_regroups(x, zero, p0);
    S::plus_zero(x);
    let start = x.spec_minus(p0).spec_minus(b0);
    lemma_zero_plus(x);
    let back = n.and(x).less(p0).less(b0).and(p0).and(b0);
    assert(back.value() == start.spec_plus(p0).spec_plus(b0));
    assert(n.and(x).value() == x);
    assert(back.added.add(n.and(x).subtracted) =~= n.and(x).added.add(back.subtracted));
    lemma_same(back, n.and(x));
    let wp = w.spec_plus(p0.spec_plus(p1));
    lemma_regroups(start, wp, b0.spec_plus(b1));
    lemma_regroups(start.spec_plus(wp), b0, b1);
    lemma_regroups(start, w, p0.spec_plus(p1));
    lemma_regroups(start.spec_plus(w), p0, p1);
    let end = n.and(x).less(p0).less(b0).and(w).and(p0).and(p1).and(b0).and(b1);
    let outer = n.and(x).and(w).and(p1).and(b1);
    assert(end.value() == start.spec_plus(wp.spec_plus(b0.spec_plus(b1))));
    assert(outer.value() == x.spec_plus(w).spec_plus(p1).spec_plus(b1));
    assert(end.added.add(outer.subtracted) =~= outer.added.add(end.subtracted));
    lemma_same(end, outer);
}

} // verus!
