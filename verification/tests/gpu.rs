use ui_solver::dom::{
    KeySource, KeySources, NodeId, OpacityKey, StyledDom, StyledNode, TransformKey,
};
use ui_solver::style::{CssPropertyValue, Length, StyleTransform, StyleTransformOrigin};
use ui_solver::{
    ComputedTransform3D, CpuFeatures, GpuEventChanges, GpuKeyEvent, GpuValueCache,
    LogicalPosition, LogicalSize, PositionedRectangle, RelayoutChanges, Scalar,
};

/// A float as the scalar of the layout.
#[derive(Clone, Copy, Debug, PartialEq)]
struct Px(f32);

impl Scalar for Px {
    fn spec_zero() -> Px {
        Px::zero()
    }
    fn spec_one() -> Px {
        Px::one()
    }
    fn spec_two() -> Px {
        Px::two()
    }
    fn spec_half() -> Px {
        Px::half()
    }
    fn spec_hundred() -> Px {
        Px::hundred()
    }
    fn spec_pi() -> Px {
        Px::pi()
    }
    fn spec_plus(self, rhs: Px) -> Px {
        self.plus(rhs)
    }
    fn spec_minus(self, rhs: Px) -> Px {
        self.minus(rhs)
    }
    fn spec_times(self, rhs: Px) -> Px {
        self.times(rhs)
    }
    fn spec_over(self, rhs: Px) -> Px {
        self.over(rhs)
    }
    fn spec_negated(self) -> Px {
        self.negated()
    }
    fn spec_mul_add(self, factor: Px, addend: Px) -> Px {
        self.mul_add(factor, addend)
    }
    fn spec_to_radians(self) -> Px {
        self.to_radians()
    }
    fn spec_sin(self) -> Px {
        self.sin()
    }
    fn spec_cos(self) -> Px {
        self.cos()
    }
    fn spec_tan(self) -> Px {
        self.tan()
    }
    fn spec_maximum(self, rhs: Px) -> Px {
        self.maximum(rhs)
    }
    fn spec_minimum(self, rhs: Px) -> Px {
        self.minimum(rhs)
    }
    fn spec_is_sign_positive(self) -> bool {
        self.is_sign_positive()
    }
    fn spec_round_to_isize(self) -> isize {
        self.round_to_isize()
    }
    fn zero() -> Px {
        Px(0.0)
    }
    fn one() -> Px {
        Px(1.0)
    }
    fn two() -> Px {
        Px(2.0)
    }
    fn half() -> Px {
        Px(0.5)
    }
    fn hundred() -> Px {
        Px(100.0)
    }
    fn pi() -> Px {
        Px(std::f32::consts::PI)
    }
    fn plus(self, rhs: Px) -> Px {
        Px(self.0 + rhs.0)
    }
    fn minus(self, rhs: Px) -> Px {
        Px(self.0 - rhs.0)
    }
    fn times(self, rhs: Px) -> Px {
        Px(self.0 * rhs.0)
    }
    fn over(self, rhs: Px) -> Px {
        Px(self.0 / rhs.0)
    }
    fn negated(self) -> Px {
        Px(-self.0)
    }
    fn mul_add(self, factor: Px, addend: Px) -> Px {
        Px(self.0.mul_add(factor.0, addend.0))
    }
    fn to_radians(self) -> Px {
        Px(self.0.to_radians())
    }
    fn sin(self) -> Px {
        Px(libm::sinf(self.0))
    }
    fn cos(self) -> Px {
        Px(libm::cosf(self.0))
    }
    fn tan(self) -> Px {
        Px(libm::tanf(self.0))
    }
    fn maximum(self, rhs: Px) -> Px {
        Px(self.0.max(rhs.0))
    }
    fn minimum(self, rhs: Px) -> Px {
        Px(self.0.min(rhs.0))
    }
    fn is_sign_positive(self) -> bool {
        self.0.is_sign_positive()
    }
    fn round_to_isize(self) -> isize {
        self.0.round() as isize
    }
}

fn node() -> StyledNode<i64> {
    StyledNode { transform: None, transform_origin: None, opacity: None, tab_index: None }
}

fn moved(x: i64) -> StyledNode<i64> {
    StyledNode {
        transform: Some(CssPropertyValue::Exact(vec![StyleTransform::TranslateX(
            Length::Absolute(x),
        )])),
        ..node()
    }
}

fn not_moved() -> StyledNode<i64> {
    StyledNode { transform: Some(CssPropertyValue::NoneKeyword), ..node() }
}

fn dim(opacity: i64) -> StyledNode<i64> {
    StyledNode { opacity: Some(CssPropertyValue::Exact(opacity)), ..node() }
}

fn dom(node_data: Vec<StyledNode<i64>>) -> StyledDom<i64> {
    StyledDom { root: Some(0), node_data, tag_ids_to_node_ids: vec![] }
}

fn rects(count: usize) -> Vec<PositionedRectangle<i64>> {
    (0..count)
        .map(|n| PositionedRectangle {
            size: LogicalSize::new(100 * n as i64, 1000 * n as i64),
            ..PositionedRectangle::default()
        })
        .collect()
}

fn sources() -> KeySources {
    KeySources { transform: KeySource { next: 40 }, opacity: KeySource { next: 50 } }
}

fn by(x: i64) -> ComputedTransform3D<i64> {
    ComputedTransform3D::new_translation(x, 0, 0)
}

fn run(
    cache: &mut GpuValueCache<i64>,
    nodes: Vec<StyledNode<i64>>,
    sources: &mut KeySources,
) -> GpuEventChanges<i64> {
    let count = nodes.len();
    cache.synchronize(&rects(count), &dom(nodes), CpuFeatures::unknown(), sources)
}

#[test]
fn no_changes_are_empty() {
    assert!(GpuEventChanges::<i64>::empty().is_empty());
    assert!(GpuEventChanges::<i64>::default().is_empty());
    let relayout = RelayoutChanges::<i64>::empty();
    assert!(relayout.resized_nodes.is_empty() && relayout.gpu_key_changes.is_empty());
    assert!(RelayoutChanges::<i64>::default().gpu_key_changes.is_empty());
    let mut some = GpuEventChanges::<i64>::empty();
    some.opacity_key_changes.push(GpuKeyEvent::Removed(1, OpacityKey { id: 2 }));
    assert!(!some.is_empty());
    let mut other = GpuEventChanges::<i64>::empty();
    other.transform_key_changes.push(GpuKeyEvent::Removed(1, TransformKey { id: 2 }));
    assert!(!other.is_empty());
}

#[test]
fn new_values_are_added_in_the_order_of_the_nodes() {
    let mut cache = GpuValueCache::empty();
    let mut sources = sources();
    let changes =
        run(&mut cache, vec![moved(7), node(), not_moved(), moved(8), dim(3)], &mut sources);
    assert_eq!(
        changes.transform_key_changes,
        vec![
            GpuKeyEvent::Added(0, TransformKey { id: 40 }, by(7)),
            GpuKeyEvent::Added(3, TransformKey { id: 41 }, by(8)),
        ]
    );
    assert_eq!(
        changes.opacity_key_changes,
        vec![GpuKeyEvent::Added(4, OpacityKey { id: 50 }, 3)]
    );
    let keys: Vec<(NodeId, TransformKey)> =
        cache.transform_keys.iter().map(|(n, k)| (*n, *k)).collect();
    assert_eq!(keys, vec![(0, TransformKey { id: 40 }), (3, TransformKey { id: 41 })]);
    assert_eq!(cache.current_transform_values.get(&3), Some(&by(8)));
    assert_eq!(cache.opacity_keys.get(&4), Some(&OpacityKey { id: 50 }));
    assert_eq!(cache.current_opacity_values.get(&4), Some(&3));
    assert_eq!(
        sources,
        KeySources { transform: KeySource { next: 42 }, opacity: KeySource { next: 51 } }
    );
}

#[test]
fn values_change_and_go() {
    let mut cache = GpuValueCache::empty();
    let mut sources = sources();
    run(&mut cache, vec![moved(7), moved(8), moved(9), dim(3), dim(4)], &mut sources);
    let opaque = StyledNode { opacity: Some(CssPropertyValue::Initial), ..node() };
    let changes =
        run(&mut cache, vec![moved(70), not_moved(), node(), dim(30), opaque], &mut sources);
    assert_eq!(
        changes.transform_key_changes,
        vec![
            GpuKeyEvent::Changed(0, TransformKey { id: 40 }, by(7), by(70)),
            GpuKeyEvent::Removed(1, TransformKey { id: 41 }),
        ]
    );
    assert_eq!(
        changes.opacity_key_changes,
        vec![
            GpuKeyEvent::Changed(3, OpacityKey { id: 50 }, 3, 30),
            GpuKeyEvent::Removed(4, OpacityKey { id: 51 }),
        ]
    );
    // a node of which nothing is said keeps its value
    assert_eq!(cache.current_transform_values.get(&2), Some(&by(9)));
    assert_eq!(cache.transform_keys.get(&2), Some(&TransformKey { id: 42 }));
    assert_eq!(cache.current_transform_values.get(&0), Some(&by(70)));
    assert!(!cache.transform_keys.contains_key(&1));
    assert!(!cache.current_transform_values.contains_key(&1));
    assert!(!cache.opacity_keys.contains_key(&4));
    assert_eq!(cache.current_opacity_values.get(&3), Some(&30));
}

#[test]
fn a_second_synchronization_changes_nothing() {
    let mut cache = GpuValueCache::empty();
    let mut sources = sources();
    let nodes = vec![moved(7), not_moved(), dim(3)];
    let _ = run(&mut cache, nodes.clone(), &mut sources);
    let (before, sources_before) = (cache.clone(), sources);
    let changes = run(&mut cache, nodes, &mut sources);
    assert_eq!(cache, before);
    assert_eq!(sources, sources_before);
    assert_eq!(
        changes.transform_key_changes,
        vec![GpuKeyEvent::Changed(0, TransformKey { id: 40 }, by(7), by(7))]
    );
    assert_eq!(
        changes.opacity_key_changes,
        vec![GpuKeyEvent::Changed(2, OpacityKey { id: 50 }, 3, 3)]
    );
}

#[test]
fn events_replay_to_the_same_cache() {
    let mut cache = GpuValueCache::empty();
    let mut sources = sources();
    run(&mut cache, vec![moved(1), moved(2), moved(3), node()], &mut sources);
    let mut replayed = cache.clone();
    let changes =
        run(&mut cache, vec![not_moved(), moved(20), node(), moved(4)], &mut sources);
    let mut last: Option<NodeId> = None;
    for event in changes.transform_key_changes {
        let node_id = match event {
            GpuKeyEvent::Added(n, key, value) => {
                replayed.transform_keys.insert(n, key);
                replayed.current_transform_values.insert(n, value);
                n
            }
            GpuKeyEvent::Changed(n, _, _, value) => {
                replayed.current_transform_values.insert(n, value);
                n
            }
            GpuKeyEvent::Removed(n, _) => {
                replayed.transform_keys.remove(&n);
                replayed.current_transform_values.remove(&n);
                n
            }
        };
        assert!(last < Some(node_id));
        last = Some(node_id);
    }
    assert_eq!(replayed, cache);
    // the node that was added again got a key of its own
    assert_eq!(cache.transform_keys.get(&3), Some(&TransformKey { id: 43 }));
}

#[test]
fn a_value_without_a_key_stays() {
    let mut cache = GpuValueCache::empty();
    let mut sources = sources();
    cache.current_transform_values.insert(0, by(5));
    cache.current_opacity_values.insert(1, 6);
    let transparent = StyledNode { opacity: Some(CssPropertyValue::Unset), ..node() };
    let changes = run(&mut cache, vec![moved(7), transparent], &mut sources);
    assert!(changes.is_empty());
    assert_eq!(cache.current_transform_values.get(&0), Some(&by(5)));
    assert_eq!(cache.current_opacity_values.get(&1), Some(&6));
}

#[test]
fn transforms_are_resolved_against_the_rectangle() {
    let mut cache = GpuValueCache::empty();
    let half_turn: i64 = 180;
    let nodes = vec![
        node(),
        StyledNode {
            transform: Some(CssPropertyValue::Exact(vec![
                StyleTransform::TranslateX(Length::Percent(100)),
                StyleTransform::TranslateY(Length::Percent(200)),
            ])),
            ..node()
        },
        StyledNode {
            transform: Some(CssPropertyValue::Exact(vec![StyleTransform::Rotate(half_turn)])),
            transform_origin: Some(CssPropertyValue::Exact(StyleTransformOrigin {
                x: Length::Absolute(5),
                y: Length::Absolute(6),
            })),
            ..node()
        },
    ];
    run(&mut cache, nodes, &mut sources());
    assert_eq!(
        cache.current_transform_values.get(&1),
        Some(&ComputedTransform3D::new_translation(100, 2000, 0))
    );
    // for the renderer, half a turn about its own origin
    assert_eq!(
        cache.current_transform_values.get(&2),
        Some(&ComputedTransform3D::new_2d(-1, 0, 0, -1, 10, 12))
    );
}

#[test]
fn transforms_are_about_the_center_by_default() {
    assert_eq!(
        StyleTransformOrigin::<Px>::default(),
        StyleTransformOrigin { x: Length::Percent(Px(50.0)), y: Length::Percent(Px(50.0)) }
    );
    let half_turn = Px(180.0);
    let turned = |transform_origin| StyledNode {
        transform: Some(CssPropertyValue::Exact(vec![StyleTransform::Rotate(half_turn)])),
        transform_origin,
        opacity: None,
        tab_index: None,
    };
    let nodes = vec![turned(None), turned(Some(CssPropertyValue::Initial))];
    let rect = PositionedRectangle {
        size: LogicalSize::new(Px(30.0), Px(50.0)),
        ..PositionedRectangle::default()
    };
    let mut cache = GpuValueCache::empty();
    let styled_dom = StyledDom { root: Some(0), node_data: nodes, tag_ids_to_node_ids: vec![] };
    cache.synchronize(
        &[rect.clone(), rect],
        &styled_dom,
        CpuFeatures::unknown(),
        &mut sources(),
    );
    for n in [0, 1] {
        let m = cache.current_transform_values[&n];
        let p = m.transform_point2d(LogicalPosition::new(Px(1.0), Px(2.0))).unwrap();
        assert!((p.x.0 - 29.0).abs() < 0.001 && (p.y.0 - 48.0).abs() < 0.001);
    }
}

#[test]
fn every_cpu_synchronizes_alike() {
    let nodes = vec![moved(7), moved(8), moved(9)];
    let mut expected = GpuValueCache::empty();
    run(&mut expected, nodes.clone(), &mut sources());
    for (use_avx, use_sse) in [(false, true), (true, false), (true, true)] {
        let mut cache = GpuValueCache::empty();
        cache.synchronize(
            &rects(3),
            &dom(nodes.clone()),
            CpuFeatures { initialized: true, use_avx, use_sse },
            &mut sources(),
        );
        assert_eq!(cache, expected);
    }
}

#[test]
fn many_nodes_are_synchronized_in_parallel() {
    let count: usize = 5000;
    let mut cache = GpuValueCache::empty();
    let nodes: Vec<StyledNode<i64>> = (0..count).map(|n| moved(n as i64)).collect();
    let changes = run(&mut cache, nodes, &mut sources());
    assert_eq!(changes.transform_key_changes.len(), count);
    for n in 0..count {
        assert_eq!(
            changes.transform_key_changes[n],
            GpuKeyEvent::Added(n, TransformKey { id: 40 + n }, by(n as i64))
        );
    }
}

#[test]
fn rectangles_are_only_needed_for_transforms() {
    let mut cache = GpuValueCache::empty();
    let changes = cache.synchronize(
        &[],
        &dom(vec![dim(1), not_moved()]),
        CpuFeatures::unknown(),
        &mut sources(),
    );
    assert_eq!(
        changes.opacity_key_changes,
        vec![GpuKeyEvent::Added(0, OpacityKey { id: 50 }, 1)]
    );
}

#[test]
fn a_second_synchronization_names_the_same_nodes_and_keys() {
    let mut cache = GpuValueCache::empty();
    let mut sources = sources();
    let nodes = vec![moved(7), node(), not_moved(), moved(9), dim(3), moved(1)];
    let first = run(&mut cache, nodes.clone(), &mut sources);
    let second = run(&mut cache, nodes, &mut sources);
    let added: Vec<(NodeId, TransformKey)> = first
        .transform_key_changes
        .iter()
        .map(|e| match e {
            GpuKeyEvent::Added(n, k, _) => (*n, *k),
            _ => unreachable!(),
        })
        .collect();
    let changed: Vec<(NodeId, TransformKey)> = second
        .transform_key_changes
        .iter()
        .map(|e| match e {
            GpuKeyEvent::Changed(n, k, _, _) => (*n, *k),
            _ => unreachable!(),
        })
        .collect();
    assert_eq!(
        added,
        vec![
            (0, TransformKey { id: 40 }),
            (3, TransformKey { id: 41 }),
            (5, TransformKey { id: 42 }),
        ]
    );
    assert_eq!(added, changed);
}
