use ui_solver::dom::PipelineId;
use ui_solver::style::{
    CssPropertyValue, LayoutBoxSizing, LayoutOverflow, Length, StyleTextAlignmentHorz,
    StyleTextAlignmentVert,
};
use ui_solver::text::{DEFAULT_FONT_ID, DEFAULT_FONT_SIZE_PX};
use ui_solver::{
    calculate_horizontal_shift_multiplier, calculate_vertical_shift_multiplier,
    DirectionalOverflowInfo, ExternalScrollId, HeightCalculatedRect, HeightSolvedResult,
    InlineTextLayout, InlineTextLine, LayoutPoint, LayoutRect, LayoutSize, LogicalPosition,
    LogicalRect, LogicalSize, OverflowInfo, PositionInfo, PositionedRectangle, ResolvedOffsets,
    ResolvedTextLayoutOptions, Scalar, ScrolledNodes, StyleBoxShadowOffsets, TextLayoutOptions,
    WhConstraint, WidthCalculatedRect, WidthSolvedResult,
};

/// A float as the scalar of the layout.
#[derive(Clone, Copy, Debug, PartialEq)]
struct Px(f32);

impl Scalar for Px {
    fn spec_zero() -> Px {
        Px::zero()
    }
    fn spec_one() -> Px {
        Px::one()
    }
    fn spec_two() -> Px {
        Px::two()
    }
    fn spec_half() -> Px {
        Px::half()
    }
    fn spec_hundred() -> Px {
        Px::hundred()
    }
    fn spec_pi() -> Px {
        Px::pi()
    }
    fn spec_plus(self, rhs: Px) -> Px {
        self.plus(rhs)
    }
    fn spec_minus(self, rhs: Px) -> Px {
        self.minus(rhs)
    }
    fn spec_times(self, rhs: Px) -> Px {
        self.times(rhs)
    }
    fn spec_over(self, rhs: Px) -> Px {
        self.over(rhs)
    }
    fn spec_negated(self) -> Px {
        self.negated()
    }
    fn spec_mul_add(self, factor: Px, addend: Px) -> Px {
        self.mul_add(factor, addend)
    }
    fn spec_to_radians(self) -> Px {
        self.to_radians()
    }
    fn spec_sin(self) -> Px {
        self.sin()
    }
    fn spec_cos(self) -> Px {
        self.cos()
    }
    fn spec_tan(self) -> Px {
        self.tan()
    }
    fn spec_maximum(self, rhs: Px) -> Px {
        self.maximum(rhs)
    }
    fn spec_minimum(self, rhs: Px) -> Px {
        self.minimum(rhs)
    }
    fn spec_is_sign_positive(self) -> bool {
        self.is_sign_positive()
    }
    fn spec_round_to_isize(self) -> isize {
        self.round_to_isize()
    }
    fn zero() -> Px {
        Px(0.0)
    }
    fn one() -> Px {
        Px(1.0)
    }
    fn two() -> Px {
        Px(2.0)
    }
    fn half() -> Px {
        Px(0.5)
    }
    fn hundred() -> Px {
        Px(100.0)
    }
    fn pi() -> Px {
        Px(std::f32::consts::PI)
    }
    fn plus(self, rhs: Px) -> Px {
        Px(self.0 + rhs.0)
    }
    fn minus(self, rhs: Px) -> Px {
        Px(self.0 - rhs.0)
    }
    fn times(self, rhs: Px) -> Px {
        Px(self.0 * rhs.0)
    }
    fn over(self, rhs: Px) -> Px {
        Px(self.0 / rhs.0)
    }
    fn negated(self) -> Px {
        Px(-self.0)
    }
    fn mul_add(self, factor: Px, addend: Px) -> Px {
        Px(self.0.mul_add(factor.0, addend.0))
    }
    fn to_radians(self) -> Px {
        Px(self.0.to_radians())
    }
    fn sin(self) -> Px {
        Px(libm::sinf(self.0))
    }
    fn cos(self) -> Px {
        Px(libm::cosf(self.0))
    }
    fn tan(self) -> Px {
        Px(libm::tanf(self.0))
    }
    fn maximum(self, rhs: Px) -> Px {
        Px(self.0.max(rhs.0))
    }
    fn minimum(self, rhs: Px) -> Px {
        Px(self.0.min(rhs.0))
    }
    fn is_sign_positive(self) -> bool {
        self.0.is_sign_positive()
    }
    fn round_to_isize(self) -> isize {
        self.0.round() as isize
    }
}

fn line<S: Scalar>(x: S, y: S, width: S, height: S, start: usize) -> InlineTextLine<S> {
    InlineTextLine::new(
        LogicalRect::new(LogicalPosition::new(x, y), LogicalSize::new(width, height)),
        start,
        start + 3,
    )
}

fn three_lines() -> InlineTextLayout<i64> {
    InlineTextLayout {
        lines: vec![line(0, 0, 50, 10, 0), line(4, 10, 30, 10, 4), line(0, 20, 70, 10, 8)],
        content_size: LogicalSize::new(70, 30),
    }
}

fn exact<T>(value: T) -> Option<CssPropertyValue<T>> {
    Some(CssPropertyValue::Exact(value))
}

#[test]
fn constraint_between_bounds() {
    let c = WhConstraint::Between(10i64, 20);
    assert_eq!(c.calculate_from_relative_parent(5), 10);
    assert_eq!(c.calculate_from_relative_parent(15), 15);
    assert_eq!(c.calculate_from_relative_parent(25), 20);
    assert_eq!(c.min_needed_space(), Some(10));
    assert_eq!(c.max_available_space(), Some(20));
    assert!(!c.is_fixed_constraint());
    // the maximum has the higher precedence
    assert_eq!(WhConstraint::Between(30i64, 20).calculate_from_relative_parent(25), 20);
    for w in [-3i64, 10, 17, 40] {
        let size = c.calculate_from_relative_parent(w);
        assert_eq!(c.calculate_from_relative_parent(size), size);
        for other in 10i64..=20 {
            assert!((size - w).abs() <= (other - w).abs());
        }
    }
}

#[test]
fn constraint_that_is_fixed() {
    let c = WhConstraint::EqualTo(12i64);
    assert_eq!(c.calculate_from_relative_parent(5), 12);
    assert_eq!(c.min_needed_space(), Some(12));
    assert_eq!(c.max_available_space(), Some(12));
    assert!(c.is_fixed_constraint());
}

#[test]
fn constraint_that_allows_anything() {
    let c = WhConstraint::<i64>::default();
    assert_eq!(c, WhConstraint::Unconstrained);
    assert_eq!(c.calculate_from_relative_parent(-5), -5);
    assert_eq!(c.min_needed_space(), Some(0));
    assert_eq!(c.max_available_space(), None);
    assert!(!c.is_fixed_constraint());
}

#[test]
fn constraint_on_floats() {
    let c = WhConstraint::Between(Px(0.5), Px(1.5));
    assert_eq!(c.calculate_from_relative_parent(Px(1.25)), Px(1.25));
    assert_eq!(c.calculate_from_relative_parent(Px(0.25)), Px(0.5));
    assert_eq!(c.calculate_from_relative_parent(Px(f32::NAN)), Px(0.5));
}

#[test]
fn overflow_in_every_mode() {
    for amount in [Some(-1), Some(0), Some(7), None] {
        for info in [
            DirectionalOverflowInfo::Scroll { amount },
            DirectionalOverflowInfo::Auto { amount },
            DirectionalOverflowInfo::Hidden { amount },
            DirectionalOverflowInfo::Visible { amount },
        ] {
            assert_eq!(info.get_amount(), amount);
            assert_eq!(info.is_none(), amount.is_none());
            assert_eq!(info.is_negative(), amount.map_or(true, |a: isize| a < 0));
        }
    }
    assert_eq!(
        DirectionalOverflowInfo::default(),
        DirectionalOverflowInfo::Auto { amount: None }
    );
    let both = OverflowInfo::default();
    assert!(both.overflow_x.is_none() && both.overflow_y.is_none());
}

#[test]
fn nothing_is_set_by_default() {
    let w = WidthCalculatedRect::<i64>::default();
    assert_eq!(w.get_flex_basis_horizontal(100), 0);
    assert_eq!(w.get_padding_left(100), 0);
    assert_eq!(w.total(), 0);
    assert_eq!(w.box_sizing, LayoutBoxSizing::ContentBox);
    let h = HeightCalculatedRect::<i64>::default();
    assert_eq!(h.get_flex_basis_vertical(100), 0);
    assert_eq!(h.preferred_height, WhConstraint::Unconstrained);
}

#[test]
fn parts_of_a_width() {
    let rect = WidthCalculatedRect {
        preferred_width: WhConstraint::EqualTo(9i64),
        margin_left: exact(Length::Absolute(1)),
        margin_right: exact(Length::Percent(100)),
        padding_left: exact(Length::Absolute(20)),
        padding_right: exact(Length::Absolute(30)),
        border_left: exact(Length::Absolute(400)),
        border_right: exact(Length::Absolute(500)),
        left: None,
        right: Some(CssPropertyValue::Auto),
        box_sizing: LayoutBoxSizing::BorderBox,
        flex_grow_px: 7000,
        min_inner_size_px: 60000,
    };
    assert_eq!(rect.get_border_left(5), 400);
    assert_eq!(rect.get_border_right(5), 500);
    assert_eq!(rect.get_raw_padding_left(5), 20);
    assert_eq!(rect.get_raw_padding_right(5), 30);
    assert_eq!(rect.get_padding_left(5), 420);
    assert_eq!(rect.get_padding_right(5), 530);
    assert_eq!(rect.get_margin_left(5), 1);
    assert_eq!(rect.get_margin_right(5), 5);
    assert_eq!(rect.get_horizontal_border(5), 900);
    assert_eq!(rect.get_horizontal_padding(5), 950);
    assert_eq!(rect.get_horizontal_margin(5), 6);
    assert_eq!(rect.get_flex_basis_horizontal(5), 60956);
    assert_eq!(
        rect.get_flex_basis_horizontal(5),
        60000 + rect.get_horizontal_margin(5) + rect.get_horizontal_padding(5)
    );
    assert_eq!(rect.total(), 67000);
    assert_eq!(
        rect.solved_result(),
        WidthSolvedResult { min_width: 60000, space_added: 7000 }
    );
}

#[test]
fn parts_of_a_height() {
    let rect = HeightCalculatedRect {
        preferred_height: WhConstraint::EqualTo(9i64),
        margin_top: exact(Length::Absolute(1)),
        margin_bottom: exact(Length::Percent(100)),
        padding_top: exact(Length::Absolute(20)),
        padding_bottom: exact(Length::Absolute(30)),
        border_top: exact(Length::Absolute(400)),
        border_bottom: exact(Length::Absolute(500)),
        top: None,
        bottom: Some(CssPropertyValue::Auto),
        box_sizing: LayoutBoxSizing::BorderBox,
        flex_grow_px: 7000,
        min_inner_size_px: 60000,
    };
    assert_eq!(rect.get_border_top(5), 400);
    assert_eq!(rect.get_border_bottom(5), 500);
    assert_eq!(rect.get_raw_padding_top(5), 20);
    assert_eq!(rect.get_raw_padding_bottom(5), 30);
    assert_eq!(rect.get_padding_top(5), 420);
    assert_eq!(rect.get_padding_bottom(5), 530);
    assert_eq!(rect.get_margin_top(5), 1);
    assert_eq!(rect.get_margin_bottom(5), 5);
    assert_eq!(rect.get_vertical_border(5), 900);
    assert_eq!(rect.get_vertical_padding(5), 950);
    assert_eq!(rect.get_vertical_margin(5), 6);
    assert_eq!(rect.get_flex_basis_vertical(5), 60956);
    assert_eq!(rect.total(), 67000);
    assert_eq!(
        rect.solved_result(),
        HeightSolvedResult { min_height: 60000, space_added: 7000 }
    );
}

#[test]
fn keywords_have_no_length() {
    for keyword in [
        CssPropertyValue::Auto,
        CssPropertyValue::NoneKeyword,
        CssPropertyValue::Initial,
        CssPropertyValue::Inherit,
        CssPropertyValue::Revert,
        CssPropertyValue::Unset,
    ] {
        let rect = WidthCalculatedRect::<i64> {
            margin_left: Some(keyword),
            border_left: exact(Length::Absolute(3)),
            ..WidthCalculatedRect::default()
        };
        assert_eq!(rect.get_margin_left(100), 0);
        assert_eq!(rect.get_padding_left(100), 3);
    }
}

#[test]
fn percentages_of_floats() {
    assert_eq!(Length::Percent(Px(25.0)).to_pixels(Px(50.0)), Px(12.5));
    assert_eq!(Length::Absolute(Px(25.0)).to_pixels(Px(50.0)), Px(25.0));
    let rect = WidthCalculatedRect {
        padding_left: exact(Length::Percent(Px(10.0))),
        ..WidthCalculatedRect::default()
    };
    assert_eq!(rect.get_raw_padding_left(Px(30.0)), Px(3.0));
}

#[test]
fn edges_of_the_first_line() {
    let text = InlineTextLayout {
        lines: vec![line(4, 0, 50, 10, 0), line(9, 10, 30, 10, 4)],
        content_size: LogicalSize::new(70i64, 30),
    };
    assert_eq!(text.get_leading(), 4);
    assert_eq!(text.get_trailing(), 54);
    let none = InlineTextLayout::<i64> { lines: vec![], content_size: LogicalSize::new(1, 1) };
    assert_eq!(none.get_leading(), 0);
    assert_eq!(none.get_trailing(), 0);
}

#[test]
fn lines_aligned_to_the_left_and_the_top_stay() {
    let mut text = three_lines();
    text.align_children_horizontal(&LogicalSize::new(100, 100), StyleTextAlignmentHorz::Left);
    text.align_children_vertical_in_parent_bounds(
        &LogicalSize::new(100, 100),
        StyleTextAlignmentVert::Top,
    );
    assert_eq!(text, three_lines());
}

#[test]
fn lines_aligned_to_the_right() {
    let mut text = three_lines();
    text.align_children_horizontal(&LogicalSize::new(100, 100), StyleTextAlignmentHorz::Right);
    assert_eq!(
        text.lines,
        vec![line(50, 0, 50, 10, 0), line(74, 10, 30, 10, 4), line(30, 20, 70, 10, 8)]
    );
    assert_eq!(text.content_size, LogicalSize::new(70, 30));
}

#[test]
fn lines_aligned_to_the_bottom() {
    let mut text = three_lines();
    text.align_children_vertical_in_parent_bounds(
        &LogicalSize::new(100, 90),
        StyleTextAlignmentVert::Bottom,
    );
    assert_eq!(
        text.lines,
        vec![line(0, 70, 50, 10, 0), line(4, 80, 30, 10, 4), line(0, 90, 70, 10, 8)]
    );
    let mut none = InlineTextLayout::<i64> { lines: vec![], content_size: LogicalSize::new(1, 1) };
    none.align_children_vertical_in_parent_bounds(
        &LogicalSize::new(100, 90),
        StyleTextAlignmentVert::Bottom,
    );
    assert!(none.lines.is_empty());
}

#[test]
fn lines_centered() {
    let mut text = InlineTextLayout {
        lines: vec![
            line(Px(0.0), Px(0.0), Px(50.0), Px(10.0), 0),
            line(Px(1.0), Px(10.0), Px(25.0), Px(10.0), 4),
        ],
        content_size: LogicalSize::new(Px(50.0), Px(20.0)),
    };
    let parent = LogicalSize::new(Px(100.0), Px(30.0));
    text.align_children_horizontal(&parent, StyleTextAlignmentHorz::Center);
    text.align_children_vertical_in_parent_bounds(&parent, StyleTextAlignmentVert::Center);
    assert_eq!(
        text.lines,
        vec![
            line(Px(25.0), Px(10.0), Px(50.0), Px(10.0), 0),
            line(Px(38.5), Px(20.0), Px(25.0), Px(10.0), 4),
        ]
    );
}

#[test]
fn shift_multipliers() {
    let h = calculate_horizontal_shift_multiplier::<Px>;
    assert_eq!(h(StyleTextAlignmentHorz::Left), None);
    assert_eq!(h(StyleTextAlignmentHorz::Center), Some(Px(0.5)));
    assert_eq!(h(StyleTextAlignmentHorz::Right), Some(Px(1.0)));
    let v = calculate_vertical_shift_multiplier::<Px>;
    assert_eq!(v(StyleTextAlignmentVert::Top), None);
    assert_eq!(v(StyleTextAlignmentVert::Center), Some(Px(0.5)));
    assert_eq!(v(StyleTextAlignmentVert::Bottom), Some(Px(1.0)));
}

#[test]
fn text_defaults() {
    assert_eq!(DEFAULT_FONT_SIZE_PX, 16);
    assert_eq!(DEFAULT_FONT_ID, "serif");
    let options = TextLayoutOptions::<i64>::default();
    assert_eq!(options.font_size_px, Length::Absolute(0));
    assert!(options.line_height.is_none() && options.leading.is_none() && options.holes.is_empty());
    let resolved = ResolvedTextLayoutOptions::<i64>::default();
    assert_eq!(resolved.font_size_px, 0);
    assert!(resolved.tab_width.is_none() && resolved.max_horizontal_width.is_none());
}

fn sides(top: i64, left: i64, right: i64, bottom: i64) -> ResolvedOffsets<i64> {
    ResolvedOffsets { top, left, right, bottom }
}

fn rect(position: PositionInfo<i64>) -> PositionedRectangle<i64> {
    PositionedRectangle {
        size: LogicalSize::new(1000, 2000),
        position,
        padding: sides(1, 2, 3, 4),
        border_widths: sides(10, 20, 30, 40),
        margin: sides(100, 200, 300, 400),
        ..PositionedRectangle::default()
    }
}

fn positions() -> [PositionInfo<i64>; 4] {
    let (x_offset, y_offset, static_x_offset, static_y_offset) = (5000, 6000, 7000, 8000);
    [
        PositionInfo::Static { x_offset, y_offset, static_x_offset, static_y_offset },
        PositionInfo::Fixed { x_offset, y_offset, static_x_offset, static_y_offset },
        PositionInfo::Absolute { x_offset, y_offset, static_x_offset, static_y_offset },
        PositionInfo::Relative { x_offset, y_offset, static_x_offset, static_y_offset },
    ]
}

#[test]
fn offsets_add_up() {
    assert_eq!(sides(1, 20, 300, 4000).total_vertical(), 4001);
    assert_eq!(sides(1, 20, 300, 4000).total_horizontal(), 320);
    assert_eq!(ResolvedOffsets::<i64>::zero(), sides(0, 0, 0, 0));
    assert_eq!(ResolvedOffsets::<i64>::default(), sides(0, 0, 0, 0));
}

#[test]
fn background_surrounds_every_kind_of_rectangle() {
    for position in positions() {
        let r = rect(position);
        let (size, background) = r.get_background_bounds();
        assert_eq!(size, LogicalSize::new(1055, 2055));
        assert_eq!(background.get_relative_offset(), (4978, 5989));
        assert_eq!(
            PositionedRectangle { position: background, ..rect(position) }.get_logical_static_offset(),
            r.get_logical_static_offset()
        );
        assert_eq!(background.is_positioned(), position.is_positioned());
        assert_eq!(
            background.to_debug_string("", ""),
            position.to_debug_string("", "")
        );
    }
}

#[test]
fn margin_box_and_leading() {
    let r = rect(positions()[0]);
    assert_eq!(r.get_margin_box_width(), 1555);
    assert_eq!(r.get_margin_box_height(), 2555);
    assert_eq!(r.get_left_leading(), 222);
    assert_eq!(r.get_top_leading(), 111);
}

#[test]
fn offsets_of_a_rectangle() {
    for position in positions() {
        let r = rect(position);
        assert_eq!(r.get_logical_static_offset(), LogicalPosition::new(7000, 8000));
        assert_eq!(r.get_logical_relative_offset(), LogicalPosition::new(5000, 6000));
        assert_eq!(r.get_static_offset(), LayoutPoint::new(7000, 8000));
        assert_eq!(r.get_content_size(), LayoutSize::new(1000, 2000));
        assert_eq!(
            r.get_approximate_static_bounds(),
            LayoutRect::new(LayoutPoint::new(7000, 8000), LayoutSize::new(1000, 2000))
        );
        assert_eq!(position.get_relative_offset(), (5000, 6000));
    }
}

#[test]
fn bounds_of_floats_are_rounded() {
    let r = PositionedRectangle {
        size: LogicalSize::new(Px(10.5), Px(10.4)),
        position: PositionInfo::Static {
            x_offset: Px(0.0),
            y_offset: Px(0.0),
            static_x_offset: Px(-2.5),
            static_y_offset: Px(1.49),
        },
        ..PositionedRectangle::default()
    };
    assert_eq!(
        r.get_approximate_static_bounds(),
        LayoutRect::new(LayoutPoint::new(-3, 1), LayoutSize::new(11, 10))
    );
}

#[test]
fn rectangle_by_default() {
    let r = PositionedRectangle::<i64>::default();
    assert_eq!(r.size, LogicalSize::zero());
    assert_eq!(r.overflow_x, LayoutOverflow::Visible);
    assert_eq!(r.overflow_y, LayoutOverflow::Visible);
    assert_eq!(r.box_shadow, StyleBoxShadowOffsets::default());
    assert!(r.box_shadow.left.is_none() && r.box_shadow.bottom.is_none());
    assert!(!r.position.is_positioned());
    assert!(r.resolved_text_layout_options.is_none());
}

#[test]
fn positions_are_named() {
    let texts: Vec<String> =
        positions().iter().map(|p| p.to_debug_string("3", "4.5")).collect();
    assert_eq!(texts, ["static(3, 4.5)", "fixed(3, 4.5)", "absolute(3, 4.5)", "relative(3, 4.5)"]);
    let positioned: Vec<bool> = positions().iter().map(|p| p.is_positioned()).collect();
    assert_eq!(positioned, [false, true, true, true]);
}

#[test]
fn scroll_ids_are_displayed() {
    for id in [0, 7, 10, 1234567890, u64::MAX] {
        let scroll_id = ExternalScrollId(id, PipelineId(1, 2));
        assert_eq!(scroll_id.to_display_string(), format!("ExternalScrollId({})", id));
    }
}

#[test]
fn no_nodes_scroll_by_default() {
    let nodes = ScrolledNodes::<i64>::default();
    assert!(nodes.overflowing_nodes.is_empty());
    assert!(nodes.clip_nodes.is_empty());
    assert!(nodes.tags_to_node_ids.is_empty());
}
