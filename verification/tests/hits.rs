use std::collections::BTreeMap;
use ui_solver::dom::{DomId, NodeId, StyledDom, StyledNode, TagIdToNodeIdMapping};
use ui_solver::{
    ComputedTransform3D, GpuValueCache, HitTest, LayoutPoint, LayoutRect, LayoutResult, LayoutSize,
    LogicalPosition, LogicalRect, LogicalSize, PositionInfo, PositionedRectangle, Scalar,
    ScrolledNodes,
};

/// A float as the scalar of the layout.
#[derive(Clone, Copy, Debug, PartialEq)]
struct Px(f32);

impl Scalar for Px {
    fn spec_zero() -> Px {
        Px::zero()
    }
    fn spec_one() -> Px {
        Px::one()
    }
    fn spec_two() -> Px {
        Px::two()
    }
    fn spec_half() -> Px {
        Px::half()
    }
    fn spec_hundred() -> Px {
        Px::hundred()
    }
    fn spec_pi() -> Px {
        Px::pi()
    }
    fn spec_plus(self, rhs: Px) -> Px {
        self.plus(rhs)
    }
    fn spec_minus(self, rhs: Px) -> Px {
        self.minus(rhs)
    }
    fn spec_times(self, rhs: Px) -> Px {
        self.times(rhs)
    }
    fn spec_over(self, rhs: Px) -> Px {
        self.over(rhs)
    }
    fn spec_negated(self) -> Px {
        self.negated()
    }
    fn spec_mul_add(self, factor: Px, addend: Px) -> Px {
        self.mul_add(factor, addend)
    }
    fn spec_to_radians(self) -> Px {
        self.to_radians()
    }
    fn spec_sin(self) -> Px {
        self.sin()
    }
    fn spec_cos(self) -> Px {
        self.cos()
    }
    fn spec_tan(self) -> Px {
        self.tan()
    }
    fn spec_maximum(self, rhs: Px) -> Px {
        self.maximum(rhs)
    }
    fn spec_minimum(self, rhs: Px) -> Px {
        self.minimum(rhs)
    }
    fn spec_is_sign_positive(self) -> bool {
        self.is_sign_positive()
    }
    fn spec_round_to_isize(self) -> isize {
        self.round_to_isize()
    }
    fn zero() -> Px {
        Px(0.0)
    }
    fn one() -> Px {
        Px(1.0)
    }
    fn two() -> Px {
        Px(2.0)
    }
    fn half() -> Px {
        Px(0.5)
    }
    fn hundred() -> Px {
        Px(100.0)
    }
    fn pi() -> Px {
        Px(std::f32::consts::PI)
    }
    fn plus(self, rhs: Px) -> Px {
        Px(self.0 + rhs.0)
    }
    fn minus(self, rhs: Px) -> Px {
        Px(self.0 - rhs.0)
    }
    fn times(self, rhs: Px) -> Px {
        Px(self.0 * rhs.0)
    }
    fn over(self, rhs: Px) -> Px {
        Px(self.0 / rhs.0)
    }
    fn negated(self) -> Px {
        Px(-self.0)
    }
    fn mul_add(self, factor: Px, addend: Px) -> Px {
        Px(self.0.mul_add(factor.0, addend.0))
    }
    fn to_radians(self) -> Px {
        Px(self.0.to_radians())
    }
    fn sin(self) -> Px {
        Px(libm::sinf(self.0))
    }
    fn cos(self) -> Px {
        Px(libm::cosf(self.0))
    }
    fn tan(self) -> Px {
        Px(libm::tanf(self.0))
    }
    fn maximum(self, rhs: Px) -> Px {
        Px(self.0.max(rhs.0))
    }
    fn minimum(self, rhs: Px) -> Px {
        Px(self.0.min(rhs.0))
    }
    fn is_sign_positive(self) -> bool {
        self.0.is_sign_positive()
    }
    fn round_to_isize(self) -> isize {
        self.0.round() as isize
    }
}

fn point(x: i64, y: i64) -> LogicalPosition<i64> {
    LogicalPosition::new(x, y)
}

/// Whether the point lies in the rectangle, and where.
fn within(rect: LogicalRect<i64>, p: LogicalPosition<i64>) -> Option<LogicalPosition<i64>> {
    let d = p.minus(rect.origin);
    if 0 < d.x && d.x < rect.size.width && 0 < d.y && d.y < rect.size.height {
        Some(d)
    } else {
        None
    }
}

fn at<S: Scalar>(x: S, y: S, width: S, height: S) -> PositionedRectangle<S> {
    PositionedRectangle {
        size: LogicalSize::new(width, height),
        position: PositionInfo::Static {
            x_offset: S::zero(),
            y_offset: S::zero(),
            static_x_offset: x,
            static_y_offset: y,
        },
        ..PositionedRectangle::default()
    }
}

fn tag(node_id: Option<NodeId>, parents: &[Option<NodeId>]) -> TagIdToNodeIdMapping {
    TagIdToNodeIdMapping { node_id, parent_node_ids: parents.to_vec() }
}

fn layout<S: Scalar>(
    rects: Vec<PositionedRectangle<S>>,
    tags: Vec<TagIdToNodeIdMapping>,
) -> LayoutResult<S> {
    let node_data = rects
        .iter()
        .enumerate()
        .map(|(n, _)| StyledNode {
            transform: None,
            transform_origin: None,
            opacity: None,
            tab_index: if n == 1 { Some(0) } else { None },
        })
        .collect();
    LayoutResult {
        dom_id: DomId { inner: 0 },
        parent_dom_id: None,
        styled_dom: StyledDom { root: Some(0), node_data, tag_ids_to_node_ids: tags },
        root_size: LayoutSize::new(800, 600),
        root_position: LayoutPoint::new(3, 4),
        preferred_widths: vec![],
        preferred_heights: vec![],
        width_calculated_rects: vec![],
        height_calculated_rects: vec![],
        solved_pos_x: vec![],
        solved_pos_y: vec![],
        layout_flex_grows: vec![],
        layout_positions: vec![],
        layout_flex_directions: vec![],
        layout_justify_contents: vec![],
        rects,
        scrollable_nodes: ScrolledNodes::default(),
        iframe_mapping: BTreeMap::new(),
        gpu_value_cache: GpuValueCache::empty(),
    }
}

#[test]
fn no_hits_are_empty() {
    assert!(HitTest::<i64>::empty().is_empty());
}

#[test]
fn bounds_of_the_root() {
    let l = layout::<i64>(vec![], vec![]);
    assert_eq!(
        l.get_bounds(),
        LayoutRect::new(LayoutPoint::new(3, 4), LayoutSize::new(800, 600))
    );
}

#[test]
fn nothing_is_hit_without_a_root() {
    let mut l = layout(vec![at(0, 0, 100, 100)], vec![tag(Some(0), &[])]);
    assert!(!l.get_hits(&point(5, 5), 1, within).is_empty());
    l.styled_dom.root = None;
    assert!(l.get_hits(&point(5, 5), 1, within).is_empty());
}

#[test]
fn hits_tell_where_and_what() {
    let mut l = layout(
        vec![at(0, 0, 100, 100), at(0, 0, 40, 40), at(0, 0, 3, 3)],
        vec![tag(Some(0), &[]), tag(Some(1), &[Some(0)]), tag(Some(2), &[Some(0)]), tag(None, &[])],
    );
    l.iframe_mapping.insert(0, DomId { inner: 9 });
    let hits = l.get_hits(&point(20, 60), 2, within);
    let nodes: Vec<NodeId> = hits.regular_hit_test_nodes.keys().copied().collect();
    assert_eq!(nodes, vec![0, 1]);
    let root = &hits.regular_hit_test_nodes[&0];
    assert_eq!(root.point_in_viewport, point(10, 30));
    assert_eq!(root.point_relative_to_item, point(10, 30));
    assert_eq!(root.is_iframe_hit, Some((DomId { inner: 9 }, point(10, 30))));
    assert!(!root.is_focusable);
    let child = &hits.regular_hit_test_nodes[&1];
    assert_eq!(child.is_iframe_hit, None);
    assert!(child.is_focusable);
    assert!(hits.scroll_hit_test_nodes.is_empty());
}

#[test]
fn cursor_moves_into_the_innermost_ancestor() {
    let l = layout(
        vec![at(10, 20, 500, 500), at(30, 50, 400, 400), at(33, 55, 9, 9)],
        vec![],
    );
    let t = tag(Some(2), &[Some(0), Some(1)]);
    assert_eq!(l.project_cursor(&t, 2, point(100, 100)), point(70, 50));
    assert_eq!(l.project_cursor(&tag(Some(2), &[]), 2, point(100, 100)), point(100, 100));
}

#[test]
fn missing_ancestors_are_skipped() {
    let l = layout(
        vec![at(10, 20, 500, 500), at(30, 50, 400, 400), at(33, 55, 9, 9)],
        vec![],
    );
    // the node below a missing one is taken relative to the window
    let t = tag(Some(2), &[Some(0), None, Some(1)]);
    assert_eq!(l.project_cursor(&t, 2, point(100, 100)), point(100 - 30 - 10, 100 - 50 - 20));
}

#[test]
fn transforms_of_the_node_and_its_ancestors_are_undone() {
    let mut l = layout(
        vec![at(10, 20, 500, 500), at(30, 50, 400, 400)],
        vec![tag(Some(1), &[Some(0)])],
    );
    l.gpu_value_cache
        .current_transform_values
        .insert(1, ComputedTransform3D::new_translation(3, 4, 0));
    let t = tag(Some(1), &[Some(0)]);
    // the offset to the parent, the translation, and the offset of the parent
    assert_eq!(
        l.project_cursor(&t, 1, point(100, 100)),
        point(100 - 20 - 3 - 10, 100 - 30 - 4 - 20)
    );
    // a quarter turn of the parent takes (x, y) to (y, -x), and is undone
    l.gpu_value_cache
        .current_transform_values
        .insert(0, ComputedTransform3D::new_2d(0, -1, 1, 0, 0, 0));
    let (x, y) = (100 - 20 - 3 - 10, 100 - 30 - 4 - 20);
    assert_eq!(l.project_cursor(&t, 1, point(100, 100)), point(-y, x));
    let hits = l.get_hits(&point(100, 100), 1, |_, p| Some(p));
    assert_eq!(hits.regular_hit_test_nodes[&1].point_relative_to_item, point(-y, x));
    assert_eq!(hits.regular_hit_test_nodes[&1].point_in_viewport, point(100, 100));
}

#[test]
fn projecting_the_cursor_undoes_the_placement() {
    let mut l = layout(
        vec![at(10, 20, 500, 500), at(30, 50, 400, 400)],
        vec![tag(Some(1), &[Some(0)])],
    );
    let outer = ComputedTransform3D::new_2d(0, -1, 1, 0, 6, 7);
    let inner = ComputedTransform3D::new_2d(1, 2, 1, 3, 8, 9);
    l.gpu_value_cache.current_transform_values.insert(0, outer);
    l.gpu_value_cache.current_transform_values.insert(1, inner);
    let p = point(3, 5);
    let in_root = outer.transform_point2d(p).unwrap();
    let moved = point(in_root.x + 10, in_root.y + 20);
    let in_node = inner.transform_point2d(moved).unwrap();
    let cursor = point(in_node.x + 30 - 10, in_node.y + 50 - 20);
    assert_eq!(l.project_cursor(&tag(Some(1), &[Some(0)]), 1, cursor), p);
}

#[test]
fn transforms_that_lose_the_point_are_ignored() {
    let mut l = layout(vec![at(0, 0, 500, 500)], vec![]);
    let mut behind = ComputedTransform3D::<i64>::identity();
    behind.m[3][3] = -1;
    l.gpu_value_cache.current_transform_values.insert(0, behind);
    assert_eq!(l.project_cursor(&tag(Some(0), &[]), 0, point(7, 8)), point(7, 8));
}

#[test]
fn the_rectangle_starts_at_zero() {
    let l = layout(vec![at(10, 20, 33, 44)], vec![tag(Some(0), &[])]);
    let hits = l.get_hits(&point(1, 1), 1, |rect, _| {
        assert_eq!(rect, LogicalRect::new(point(0, 0), LogicalSize::new(33, 44)));
        None
    });
    assert!(hits.is_empty());
}

#[test]
fn the_last_hit_of_a_node_counts() {
    let l = layout(
        vec![at(10, 10, 50, 50), at(0, 0, 90, 90)],
        vec![tag(Some(1), &[Some(0)]), tag(Some(0), &[]), tag(Some(1), &[])],
    );
    let hits = l.get_hits(&point(30, 30), 1, within);
    assert_eq!(hits.regular_hit_test_nodes[&1].point_relative_to_item, point(30, 30));
    let only_first = l.collect_hits(point(30, 30), &vec![Some(point(1, 2)), None, None]);
    assert_eq!(only_first.regular_hit_test_nodes.len(), 1);
    assert_eq!(only_first.regular_hit_test_nodes[&1].point_relative_to_item, point(1, 2));
    let both = l.collect_hits(point(30, 30), &vec![Some(point(1, 2)), None, Some(point(3, 4))]);
    assert_eq!(both.regular_hit_test_nodes[&1].point_relative_to_item, point(3, 4));
}

#[test]
fn many_tags_are_tested_in_parallel() {
    let count: usize = 3000;
    let l = layout(
        (0..count).map(|n| at(0, 0, n as i64, n as i64)).collect(),
        (0..count).map(|n| tag(Some(n), &[])).collect(),
    );
    let hits = l.get_hits(&point(1000, 1000), 1, within);
    let nodes: Vec<NodeId> = hits.regular_hit_test_nodes.keys().copied().collect();
    let expected: Vec<NodeId> = (1001..count).collect();
    assert_eq!(nodes, expected);
}

#[test]
fn hits_of_floats() {
    let mut l = layout(
        vec![at(Px(0.0), Px(0.0), Px(100.0), Px(100.0))],
        vec![tag(Some(0), &[])],
    );
    l.gpu_value_cache
        .current_transform_values
        .insert(0, ComputedTransform3D::new_scale(Px(2.0), Px(4.0), Px(1.0)));
    let cursor = LogicalPosition::new(Px(30.0), Px(60.0));
    let hits = l.get_hits(&cursor, Px(1.5), |_, p| Some(p));
    let item = &hits.regular_hit_test_nodes[&0];
    assert_eq!(item.point_in_viewport, LogicalPosition::new(Px(20.0), Px(40.0)));
    assert_eq!(item.point_relative_to_item, LogicalPosition::new(Px(10.0), Px(10.0)));
}

#[test]
fn the_factor_of_the_screen_only_rescales_the_cursor() {
    let l = layout(
        vec![at(0, 0, 100, 100), at(5, 6, 40, 40)],
        vec![tag(Some(0), &[]), tag(Some(1), &[Some(0)])],
    );
    let scaled = l.get_hits(&point(60, 90), 3, within);
    assert_eq!(scaled.regular_hit_test_nodes.len(), 2);
    assert_eq!(scaled, l.get_hits(&point(20, 30), 1, within));
}

#[test]
fn style_is_only_read_of_nodes_that_are_hit() {
    let mut l = layout(
        vec![at(0, 0, 100, 100), at(0, 0, 10, 10)],
        vec![tag(Some(0), &[]), tag(Some(1), &[])],
    );
    l.styled_dom.node_data.truncate(1);
    let hits = l.get_hits(&point(50, 50), 1, within);
    let nodes: Vec<NodeId> = hits.regular_hit_test_nodes.keys().copied().collect();
    assert_eq!(nodes, vec![0]);
    let none = l.collect_hits(point(50, 50), &vec![None, None]);
    assert!(none.is_empty());
}
