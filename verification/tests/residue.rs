use ui_solver::style::{
    Length, StyleTextAlignmentHorz, StyleTextAlignmentVert, StyleTransformOrigin,
};
use ui_solver::{
    ComputedTransform3D, InlineTextLayout, InlineTextLine, LogicalPosition,
    LogicalRect, LogicalSize, Residue, RotationMode, Scalar,
};

fn r(n: u64) -> Residue {
    Residue::of(n)
}

fn all() -> Vec<Residue> {
    (0..7).map(r).collect()
}

fn identity() -> ComputedTransform3D<Residue> {
    ComputedTransform3D::identity()
}

/// Normalized axes: the squares of each add up to 1 modulo 7.
fn axes() -> Vec<[Residue; 3]> {
    vec![
        [r(1), r(0), r(0)],
        [r(0), r(6), r(0)],
        [r(0), r(0), r(1)],
        [r(2), r(2), r(0)],
        [r(0), r(5), r(2)],
        [r(3), r(3), r(2)],
    ]
}

fn transposed(m: &ComputedTransform3D<Residue>) -> ComputedTransform3D<Residue> {
    let mut t = *m;
    for i in 0..4 {
        for j in 0..4 {
            t.m[i][j] = m.m[j][i];
        }
    }
    t
}

#[test]
fn residues_are_counted_modulo_seven() {
    assert_eq!(Residue::of(23), Residue::Two);
    assert_eq!(Residue::Five.number(), 5);
    assert_eq!(r(5).plus(r(4)), r(2));
    assert_eq!(r(2).minus(r(5)), r(4));
    assert_eq!(r(5).times(r(6)), r(2));
    assert_eq!(r(3).negated(), r(4));
    assert_eq!(r(0).negated(), r(0));
    assert_eq!(r(3).mul_add(r(4), r(6)), r(4));
    assert_eq!(r(3).maximum(r(5)), r(5));
    assert_eq!(r(3).minimum(r(5)), r(3));
    assert!(r(3).is_sign_positive());
    assert!(!r(4).is_sign_positive());
    assert_eq!(r(6).round_to_isize(), 6);
    assert_eq!(Residue::hundred(), r(100));
    assert_eq!(Residue::half().times(Residue::two()), Residue::one());
    assert_eq!((Residue::zero(), Residue::pi()), (r(0), r(0)));
}

#[test]
fn residues_divide() {
    for a in all() {
        assert_eq!(a.over(r(0)), r(0));
        for b in all() {
            if b != r(0) {
                assert_eq!(a.over(b).times(b), a);
                assert_eq!(b.reciprocal().times(b), r(1));
            }
        }
    }
    assert_eq!(r(1).over(r(3)), r(5));
}

#[test]
fn residues_have_angles() {
    let sines: Vec<u64> = all().iter().map(|a| a.sin().number()).collect();
    let cosines: Vec<u64> = all().iter().map(|a| a.cos().number()).collect();
    assert_eq!(sines, vec![0, 1, 5, 2, 5, 2, 6]);
    assert_eq!(cosines, vec![1, 0, 5, 2, 2, 5, 0]);
    for a in all() {
        assert_eq!(a.sin().times(a.sin()).plus(a.cos().times(a.cos())), r(1));
        assert_eq!(a.negated().sin(), a.sin().negated());
        assert_eq!(a.negated().cos(), a.cos());
        assert_eq!(a.to_radians(), a);
    }
    assert_eq!(r(4).tan(), r(6));
    assert_eq!(r(1).tan(), r(0));
}

#[test]
fn inverse_undoes_unless_the_determinant_is_zero() {
    let scale = ComputedTransform3D::new_scale(r(2), r(3), r(5));
    assert_eq!(scale.determinant(), r(2));
    assert_eq!(scale.inverse(), ComputedTransform3D::new_scale(r(4), r(5), r(3)));
    let m = ComputedTransform3D::new(
        r(1), r(2), r(3), r(4),
        r(0), r(3), r(5), r(1),
        r(2), r(2), r(6), r(0),
        r(4), r(1), r(1), r(5),
    );
    // -72
    assert_eq!(m.determinant(), r(5));
    assert_eq!(m.followed_by(&m.inverse()), identity());
    assert_eq!(m.inverse().followed_by(&m), identity());
    let singular = ComputedTransform3D::new_scale(r(2), r(0), r(5));
    assert_eq!(singular.determinant(), r(0));
    assert_ne!(singular.followed_by(&singular.inverse()), identity());
}

#[test]
fn inverse_takes_points_back() {
    let m = ComputedTransform3D::new_2d(r(2), r(1), r(4), r(6), r(3), r(5));
    for x in all() {
        for y in all() {
            let p = LogicalPosition::new(x, y);
            let there = m.transform_point2d(p).unwrap();
            assert_eq!(m.inverse().transform_point2d(there), Some(p));
        }
    }
}

#[test]
fn second_transform_applies_after_the_first_one() {
    let a = ComputedTransform3D::new_2d(r(2), r(1), r(4), r(6), r(3), r(5));
    let b = ComputedTransform3D::new_2d(r(0), r(3), r(5), r(5), r(1), r(2));
    let p = LogicalPosition::new(r(4), r(6));
    let image = a.transform_point2d(p).unwrap();
    assert_eq!(image, LogicalPosition::new(r(35), r(45)));
    assert_eq!(a.followed_by(&b).transform_point2d(p), b.transform_point2d(image));
    assert_ne!(b.followed_by(&a).transform_point2d(p), b.transform_point2d(image));
}

#[test]
fn products_agree_and_associate() {
    let a = ComputedTransform3D::new_2d(r(2), r(1), r(4), r(6), r(3), r(5));
    let b = ComputedTransform3D::new_perspective(r(3));
    let c = ComputedTransform3D::new_rotation(r(2), r(2), r(0), r(5));
    assert_eq!(a.then_sse(&c), a.followed_by(&c));
    assert_eq!(a.then_avx8(&c), a.followed_by(&c));
    assert_eq!(a.followed_by(&b).followed_by(&c), a.followed_by(&b.followed_by(&c)));
    assert_eq!(identity().followed_by(&b), b);
    assert_eq!(b.followed_by(&identity()), b);
}

#[test]
fn rotations_by_every_angle() {
    for [x, y, z] in axes() {
        assert_eq!(ComputedTransform3D::new_rotation(x, y, z, r(0)), identity());
        for theta in all() {
            let m = ComputedTransform3D::new_rotation(x, y, z, theta);
            let back = ComputedTransform3D::new_rotation(x, y, z, theta.negated());
            assert_eq!(back, transposed(&m));
            assert_eq!(m.followed_by(&back), identity());
            assert_eq!(back.followed_by(&m), identity());
            assert_eq!(m.determinant(), r(1));
            let axis = [x, y, z];
            for j in 0..3 {
                let image = x.times(m.m[0][j]).plus(y.times(m.m[1][j])).plus(z.times(m.m[2][j]));
                assert_eq!(image, axis[j]);
            }
        }
    }
    let turned = ComputedTransform3D::new_rotation(r(0), r(0), r(1), r(5));
    // half of 5 is 6, whose sine is -1 and whose cosine is 0
    assert_eq!(turned.m[0], [r(6), r(0), r(0), r(0)]);
    assert_eq!(turned.m[1], [r(0), r(6), r(0), r(0)]);
}

#[test]
fn rotation_modes_undo_each_other_at_every_angle() {
    for [x, y, z] in axes() {
        for degrees in all() {
            let origin = (r(3), r(5));
            let hit = ComputedTransform3D::make_rotation(
                origin, degrees, x, y, z, RotationMode::ForHitTesting,
            );
            let render = ComputedTransform3D::make_rotation(
                origin, degrees, x, y, z, RotationMode::ForWebRender,
            );
            assert_eq!(hit.followed_by(&render), identity());
            assert_eq!(render.followed_by(&hit), identity());
            let p = LogicalPosition::new(r(3), r(5));
            assert_eq!(hit.transform_point2d(p), Some(p));
        }
    }
}

#[test]
fn centred_lines_have_their_middle_in_the_middle() {
    let line = |x: u64, y: u64, width: u64| {
        InlineTextLine::new(
            LogicalRect::new(
                LogicalPosition::new(r(x), r(y)),
                LogicalSize::new(r(width), r(1)),
            ),
            0,
            1,
        )
    };
    let mut text = InlineTextLayout {
        lines: vec![line(0, 0, 3), line(2, 4, 5)],
        content_size: LogicalSize::new(r(5), r(5)),
    };
    let parent = LogicalSize::new(r(6), r(2));
    text.align_children_horizontal(&parent, StyleTextAlignmentHorz::Center);
    text.align_children_vertical_in_parent_bounds(&parent, StyleTextAlignmentVert::Center);
    let half = Residue::half();
    let middle: Vec<Residue> = text
        .lines
        .iter()
        .map(|l| l.bounds.origin.x.plus(half.times(l.bounds.size.width)))
        .collect();
    assert_eq!(middle, vec![r(3), r(5)]);
    // from 0 to 4, the middle 2 moves to 1
    assert_eq!(text.lines[0].bounds.origin.y, r(6));
    assert_eq!(text.lines[1].bounds.origin.y, r(3));
}

#[test]
fn percentages_are_shares() {
    let whole = r(5);
    assert_eq!(Length::Percent(r(100)).to_pixels(whole), whole);
    assert_eq!(Length::Percent(r(0)).to_pixels(whole), r(0));
    let (a, b) = (Length::Percent(r(3)).to_pixels(whole), Length::Percent(r(6)).to_pixels(whole));
    assert_eq!(a.plus(b), Length::Percent(r(9)).to_pixels(whole));
    let origin = StyleTransformOrigin::<Residue>::default();
    assert_eq!(origin.x.to_pixels(r(6)), r(3));
    assert_eq!(origin.y.to_pixels(r(1)), r(4));
}
