use ui_solver::dom::{KeySource, TransformKey};
use ui_solver::style::{
    Length, StyleTransform, StyleTransformMatrix2D, StyleTransformMatrix3D, StyleTransformOrigin,
    StyleTransformRotate3D, StyleTransformScale2D, StyleTransformScale3D, StyleTransformSkew2D,
    StyleTransformTranslate2D, StyleTransformTranslate3D,
};
use ui_solver::{ComputedTransform3D, CpuFeatures, LogicalPosition, RotationMode, Scalar};

/// A float as the scalar of the layout.
#[derive(Clone, Copy, Debug, PartialEq)]
struct Px(f32);

impl Scalar for Px {
    fn spec_zero() -> Px {
        Px::zero()
    }
    fn spec_one() -> Px {
        Px::one()
    }
    fn spec_two() -> Px {
        Px::two()
    }
    fn spec_half() -> Px {
        Px::half()
    }
    fn spec_hundred() -> Px {
        Px::hundred()
    }
    fn spec_pi() -> Px {
        Px::pi()
    }
    fn spec_plus(self, rhs: Px) -> Px {
        self.plus(rhs)
    }
    fn spec_minus(self, rhs: Px) -> Px {
        self.minus(rhs)
    }
    fn spec_times(self, rhs: Px) -> Px {
        self.times(rhs)
    }
    fn spec_over(self, rhs: Px) -> Px {
        self.over(rhs)
    }
    fn spec_negated(self) -> Px {
        self.negated()
    }
    fn spec_mul_add(self, factor: Px, addend: Px) -> Px {
        self.mul_add(factor, addend)
    }
    fn spec_to_radians(self) -> Px {
        self.to_radians()
    }
    fn spec_sin(self) -> Px {
        self.sin()
    }
    fn spec_cos(self) -> Px {
        self.cos()
    }
    fn spec_tan(self) -> Px {
        self.tan()
    }
    fn spec_maximum(self, rhs: Px) -> Px {
        self.maximum(rhs)
    }
    fn spec_minimum(self, rhs: Px) -> Px {
        self.minimum(rhs)
    }
    fn spec_is_sign_positive(self) -> bool {
        self.is_sign_positive()
    }
    fn spec_round_to_isize(self) -> isize {
        self.round_to_isize()
    }
    fn zero() -> Px {
        Px(0.0)
    }
    fn one() -> Px {
        Px(1.0)
    }
    fn two() -> Px {
        Px(2.0)
    }
    fn half() -> Px {
        Px(0.5)
    }
    fn hundred() -> Px {
        Px(100.0)
    }
    fn pi() -> Px {
        Px(std::f32::consts::PI)
    }
    fn plus(self, rhs: Px) -> Px {
        Px(self.0 + rhs.0)
    }
    fn minus(self, rhs: Px) -> Px {
        Px(self.0 - rhs.0)
    }
    fn times(self, rhs: Px) -> Px {
        Px(self.0 * rhs.0)
    }
    fn over(self, rhs: Px) -> Px {
        Px(self.0 / rhs.0)
    }
    fn negated(self) -> Px {
        Px(-self.0)
    }
    fn mul_add(self, factor: Px, addend: Px) -> Px {
        Px(self.0.mul_add(factor.0, addend.0))
    }
    fn to_radians(self) -> Px {
        Px(self.0.to_radians())
    }
    fn sin(self) -> Px {
        Px(libm::sinf(self.0))
    }
    fn cos(self) -> Px {
        Px(libm::cosf(self.0))
    }
    fn tan(self) -> Px {
        Px(libm::tanf(self.0))
    }
    fn maximum(self, rhs: Px) -> Px {
        Px(self.0.max(rhs.0))
    }
    fn minimum(self, rhs: Px) -> Px {
        Px(self.0.min(rhs.0))
    }
    fn is_sign_positive(self) -> bool {
        self.0.is_sign_positive()
    }
    fn round_to_isize(self) -> isize {
        self.0.round() as isize
    }
}

fn matrix(m: [[i64; 4]; 4]) -> ComputedTransform3D<i64> {
    ComputedTransform3D { m }
}

fn point(x: i64, y: i64) -> LogicalPosition<i64> {
    LogicalPosition::new(x, y)
}

fn px(n: i64) -> Length<i64> {
    Length::Absolute(n)
}

fn origin(x: i64, y: i64) -> StyleTransformOrigin<i64> {
    StyleTransformOrigin { x: px(x), y: px(y) }
}

fn single(t: StyleTransform<i64>) -> ComputedTransform3D<i64> {
    ComputedTransform3D::from_style_transform(
        &t,
        &origin(0, 0),
        200,
        300,
        RotationMode::ForHitTesting,
    )
}

fn close(a: f32, b: f32) -> bool {
    (a - b).abs() < 0.001
}

fn all_cpus() -> Vec<CpuFeatures> {
    let mut out = Vec::new();
    for initialized in [false, true] {
        for use_avx in [false, true] {
            for use_sse in [false, true] {
                out.push(CpuFeatures { initialized, use_avx, use_sse });
            }
        }
    }
    out
}

#[test]
fn entries_of_the_constructors() {
    assert_eq!(
        ComputedTransform3D::<i64>::identity().m,
        [[1, 0, 0, 0], [0, 1, 0, 0], [0, 0, 1, 0], [0, 0, 0, 1]]
    );
    assert_eq!(
        ComputedTransform3D::new_2d(2i64, 3, 4, 5, 6, 7).m,
        [[2, 3, 0, 0], [4, 5, 0, 0], [0, 0, 1, 0], [6, 7, 0, 1]]
    );
    assert_eq!(
        ComputedTransform3D::new_scale(2i64, 3, 4).m,
        [[2, 0, 0, 0], [0, 3, 0, 0], [0, 0, 4, 0], [0, 0, 0, 1]]
    );
    assert_eq!(
        ComputedTransform3D::new_translation(2i64, 3, 4).m,
        [[1, 0, 0, 0], [0, 1, 0, 0], [0, 0, 1, 0], [2, 3, 4, 1]]
    );
    assert_eq!(
        ComputedTransform3D::new(1i64, 2, 3, 4, 5, 6, 7, 8, 9, 10, 11, 12, 13, 14, 15, 16).m,
        [[1, 2, 3, 4], [5, 6, 7, 8], [9, 10, 11, 12], [13, 14, 15, 16]]
    );
}

#[test]
fn perspective_divides_by_the_distance() {
    let m = ComputedTransform3D::new_perspective(Px(4.0));
    assert_eq!(m.m[2], [Px(0.0), Px(0.0), Px(1.0), Px(-0.25)]);
    assert_eq!(m.m[3], [Px(0.0), Px(0.0), Px(0.0), Px(1.0)]);
    assert_eq!(
        ComputedTransform3D::new_perspective(-1i64).m,
        [[1, 0, 0, 0], [0, 1, 0, 0], [0, 0, 1, 1], [0, 0, 0, 1]]
    );
}

#[test]
fn skew_has_the_tangents_of_its_angles() {
    let m = ComputedTransform3D::new_skew(Px(45.0), Px(60.0));
    assert!(close(m.m[1][0].0, 1.0) && close(m.m[0][1].0, 1.7320508));
    assert_eq!((m.m[0][0], m.m[1][1]), (Px(1.0), Px(1.0)));
    assert_eq!(m.m[3], [Px(0.0), Px(0.0), Px(0.0), Px(1.0)]);
}

#[test]
fn entries_of_a_rotation() {
    let theta = Px(60.0).to_radians();
    let m = ComputedTransform3D::new_rotation(Px(1.0), Px(2.0), Px(3.0), theta);
    let expected: [[f32; 4]; 4] = [
        [-5.5, 3.5980762, -0.2320508, 0.0],
        [-1.5980762, -4.0, 3.8660254, 0.0],
        [3.2320508, 2.1339746, -1.5, 0.0],
        [0.0, 0.0, 0.0, 1.0],
    ];
    for i in 0..4 {
        for j in 0..4 {
            assert!(close(m.m[i][j].0, expected[i][j]));
        }
    }
}

#[test]
fn half_turns_about_every_axis() {
    let turn = |x, y, z| ComputedTransform3D::new_rotation(x, y, z, 180i64);
    assert_eq!(turn(1, 0, 0), ComputedTransform3D::new_scale(1, -1, -1));
    assert_eq!(turn(0, 1, 0), ComputedTransform3D::new_scale(-1, 1, -1));
    assert_eq!(turn(0, 0, 1), ComputedTransform3D::new_scale(-1, -1, 1));
    assert_eq!(
        ComputedTransform3D::new_rotation(0, 0, 1, 360i64),
        ComputedTransform3D::identity()
    );
}

#[test]
fn quarter_turn_of_floats() {
    let theta = Px(90.0).to_radians();
    let m = ComputedTransform3D::new_rotation(Px(0.0), Px(0.0), Px(1.0), theta);
    assert!(close(m.m[0][0].0, 0.0) && close(m.m[0][1].0, 1.0));
    assert!(close(m.m[1][0].0, -1.0) && close(m.m[1][1].0, 0.0));
}

#[test]
fn product_of_two_matrices() {
    let a = matrix([[1, 2, 3, 4], [5, 6, 7, 8], [9, 10, 11, 12], [13, 14, 15, 16]]);
    let b = matrix([[17, 18, 19, 20], [21, 22, 23, 24], [25, 26, 27, 28], [29, 30, 31, 32]]);
    let product = matrix([[250, 260, 270, 280], [618, 644, 670, 696], [986, 1028, 1070, 1112], [1354, 1412, 1470, 1528]]);
    assert_eq!(a.followed_by(&b), product);
    assert_eq!(a.then_sse(&b), product);
    assert_eq!(a.then_avx8(&b), product);
    assert_eq!(b.followed_by(&a), matrix([[538, 612, 686, 760], [650, 740, 830, 920], [762, 868, 974, 1080], [874, 996, 1118, 1240]]));
}

#[test]
fn combination_of_rows() {
    let b = matrix([[17, 18, 19, 20], [21, 22, 23, 24], [25, 26, 27, 28], [29, 30, 31, 32]]);
    assert_eq!(ComputedTransform3D::linear_combine_sse([1, 10, 100, 1000], &b), [31727, 32838, 33949, 35060]);
    assert_eq!(
        ComputedTransform3D::linear_combine_avx8([1, 0, 0, 0, 0, 0, 2, 1], &b),
        [17, 18, 19, 20, 79, 82, 85, 88]
    );
}

#[test]
fn product_of_floats() {
    let a = ComputedTransform3D::new_scale(Px(2.0), Px(3.0), Px(1.0));
    let b = ComputedTransform3D::new_translation(Px(0.5), Px(0.25), Px(0.0));
    let ab = ComputedTransform3D::new_2d(Px(2.0), Px(0.0), Px(0.0), Px(3.0), Px(0.5), Px(0.25));
    assert_eq!(a.followed_by(&b), ab);
    assert_eq!(a.then_sse(&b), ab);
    assert_eq!(a.then_avx8(&b), ab);
}

#[test]
fn product_is_associative_with_neutral_identity() {
    let a = matrix([[1, 2, 3, 4], [5, 6, 7, 8], [9, 10, 11, 12], [13, 14, 15, 16]]);
    let b = matrix([[17, 18, 19, 20], [21, 22, 23, 24], [25, 26, 27, 28], [29, 30, 31, 32]]);
    let c = matrix([[2, 0, 1, 3], [1, 1, 0, 2], [0, 4, 1, 1], [3, 1, 2, 0]]);
    let e = ComputedTransform3D::<i64>::identity();
    assert_eq!(a.followed_by(&b).followed_by(&c), a.followed_by(&b.followed_by(&c)));
    assert_eq!(a.followed_by(&e), a);
    assert_eq!(e.followed_by(&a), a);
    assert_eq!(
        a.followed_by(&b.multiply_scalar(3)),
        a.followed_by(&b).multiply_scalar(3)
    );
    assert_eq!(
        a.multiply_scalar(3).followed_by(&b),
        a.followed_by(&b).multiply_scalar(3)
    );
}

#[test]
fn determinant_of_a_matrix() {
    assert_eq!(matrix([[2, 0, 1, 3], [1, 1, 0, 2], [0, 4, 1, 1], [3, 1, 2, 0]]).determinant(), -28);
    assert_eq!(matrix([[1, 2, 3, 4], [5, 6, 7, 8], [9, 10, 11, 12], [13, 14, 15, 16]]).determinant(), 0);
    assert_eq!(ComputedTransform3D::new_scale(2i64, 3, 5).determinant(), 30);
    assert_eq!(ComputedTransform3D::<i64>::identity().determinant(), 1);
}

#[test]
fn inverse_of_a_whole_matrix() {
    let m = matrix([[11, 2, 0, 0], [5, 1, 0, 0], [0, 0, 1, 6], [3, 0, 4, 25]]);
    let back = matrix([[1, -2, 0, 0], [-5, 11, 0, 0], [18, -36, 25, -6], [-3, 6, -4, 1]]);
    let e = ComputedTransform3D::<i64>::identity();
    assert_eq!(m.determinant(), 1);
    assert_eq!(m.inverse(), back);
    assert_eq!(m.followed_by(&m.inverse()), e);
    assert_eq!(m.inverse().followed_by(&m), e);
    let p = point(3, -8);
    let q = ComputedTransform3D::new_2d(1i64, 1, 2, 3, 10, 20);
    assert_eq!(q.determinant(), 1);
    assert_eq!(q.inverse().transform_point2d(q.transform_point2d(p).unwrap()), Some(p));
    let mirrored = ComputedTransform3D::new_2d(0i64, 1, 1, 0, 4, 5);
    assert_eq!(mirrored.determinant(), -1);
    assert_eq!(mirrored.followed_by(&mirrored.inverse()), e);
}

#[test]
fn adjugate_times_the_matrix() {
    // the inverse is the adjugate over the determinant
    let m = ComputedTransform3D {
        m: [[Px(2.0), Px(0.0), Px(1.0), Px(3.0)], [Px(1.0), Px(1.0), Px(0.0), Px(2.0)], [Px(0.0), Px(4.0), Px(1.0), Px(1.0)], [Px(3.0), Px(1.0), Px(2.0), Px(0.0)]],
    };
    let det = m.determinant().0;
    assert_eq!(det, -28.0);
    let product = m.followed_by(&m.inverse());
    for i in 0..4 {
        for j in 0..4 {
            assert!(close(product.m[i][j].0, if i == j { 1.0 } else { 0.0 }));
        }
    }
    let adjugate = m.inverse().multiply_scalar(Px(det));
    let expected: [[f32; 4]; 4] = [[12.0, -22.0, 8.0, -10.0], [8.0, -10.0, -4.0, -2.0], [-22.0, 38.0, -10.0, 2.0], [-10.0, 2.0, -2.0, 6.0]];
    for i in 0..4 {
        for j in 0..4 {
            assert!(close(adjugate.m[i][j].0, expected[i][j]));
        }
    }
}

#[test]
fn inverse_of_floats() {
    let m = ComputedTransform3D::new_translation(Px(2.5), Px(-1.0), Px(0.0));
    assert_eq!(m.inverse(), ComputedTransform3D::new_translation(Px(-2.5), Px(1.0), Px(0.0)));
    let s = ComputedTransform3D::new_scale(Px(2.0), Px(4.0), Px(8.0));
    assert_eq!(s.inverse(), ComputedTransform3D::new_scale(Px(0.5), Px(0.25), Px(0.125)));
}

#[test]
fn inverse_without_determinant() {
    let flat = ComputedTransform3D::new_scale(Px(2.0), Px(2.0), Px(0.0));
    assert!(!flat.inverse().m[2][2].0.is_finite());
    let zero = ComputedTransform3D::new_scale(0i64, 0, 0).inverse();
    assert_eq!(zero.m, [[0; 4]; 4]);
}

#[test]
fn scalar_multiplies_every_entry() {
    assert_eq!(
        matrix([[1, 2, 3, 4], [5, 6, 7, 8], [9, 10, 11, 12], [13, 14, 15, 16]]).multiply_scalar(-2).m,
        [[-2, -4, -6, -8], [-10, -12, -14, -16], [-18, -20, -22, -24], [-26, -28, -30, -32]]
    );
}

#[test]
fn points_are_transformed() {
    let t = ComputedTransform3D::new_translation(2i64, 3, 4);
    assert_eq!(t.transform_point2d(point(10, 20)), Some(point(12, 23)));
    let e = ComputedTransform3D::<i64>::identity();
    assert_eq!(e.transform_point2d(point(10, 20)), Some(point(10, 20)));
    // x' = x * m11 + y * m21 + m41
    let m = ComputedTransform3D::new_2d(2i64, 3, 5, 7, 11, 13);
    assert_eq!(m.transform_point2d(point(1, 10)), Some(point(2 + 50 + 11, 3 + 70 + 13)));
}

#[test]
fn points_are_divided_by_their_weight() {
    let mut m = ComputedTransform3D::<i64>::identity();
    m.m[3][3] = 2;
    assert_eq!(m.transform_point2d(point(10, 21)), Some(point(5, 10)));
    m.m[0][3] = 1;
    assert_eq!(m.transform_point2d(point(1, 30)), Some(point(0, 10)));
    m.m[1][3] = 1;
    assert_eq!(m.transform_point2d(point(1, 7)), Some(point(0, 0)));
}

#[test]
fn points_behind_the_viewer_are_lost() {
    let mut m = ComputedTransform3D::<i64>::identity();
    m.m[3][3] = -1;
    assert_eq!(m.transform_point2d(point(10, 20)), None);
    let mut f = ComputedTransform3D::<Px>::identity();
    f.m[3][3] = Px(-0.0);
    assert_eq!(f.transform_point2d(LogicalPosition::new(Px(-0.0), Px(-0.0))), None);
}

#[test]
fn the_second_transform_applies_after_the_first() {
    let a = ComputedTransform3D::new_translation(2i64, 3, 0);
    let b = ComputedTransform3D::new_scale(10i64, 100, 1);
    assert_eq!(a.followed_by(&b).transform_point2d(point(1, 1)), Some(point(30, 400)));
    assert_eq!(b.followed_by(&a).transform_point2d(point(1, 1)), Some(point(12, 103)));
}

#[test]
fn translations_add_up() {
    let a = ComputedTransform3D::new_translation(2i64, 3, 4);
    let b = ComputedTransform3D::new_translation(10i64, 20, 30);
    assert_eq!(a.followed_by(&b), ComputedTransform3D::new_translation(12, 23, 34));
    assert_eq!(a.inverse(), ComputedTransform3D::new_translation(-2, -3, -4));
}

#[test]
fn rotation_turns_about_its_origin() {
    let make = |degrees: i64, x, y, z| {
        ComputedTransform3D::make_rotation((5, 7), degrees, x, y, z, RotationMode::ForHitTesting)
    };
    let m = make(180, 0, 0, 1);
    assert_eq!(m.transform_point2d(point(5, 7)), Some(point(5, 7)));
    assert_eq!(m.transform_point2d(point(6, 7)), Some(point(4, 7)));
    assert_eq!(m.transform_point2d(point(5, 10)), Some(point(5, 4)));
    assert_eq!(make(360, 0, 0, 1), ComputedTransform3D::identity());
    for (x, y, z) in [(1, 0, 0), (0, 1, 0), (2, 3, 4)] {
        for degrees in [0, 17, 180, -90] {
            assert_eq!(make(degrees, x, y, z).transform_point2d(point(5, 7)), Some(point(5, 7)));
        }
    }
}

#[test]
fn rotation_modes_undo_each_other() {
    for (x, y, z) in [(1, 0, 0), (0, 1, 0), (0, 0, 1), (0, 0, -1)] {
        for degrees in [-540, -360, -180, 0, 180, 360, 540] {
            let make = |degrees: i64, mode| {
                ComputedTransform3D::make_rotation((5, 7), degrees, x, y, z, mode)
            };
            let hit = make(degrees, RotationMode::ForHitTesting);
            let render = make(degrees, RotationMode::ForWebRender);
            assert_eq!(hit.followed_by(&render), ComputedTransform3D::identity());
            assert_eq!(render, make(-degrees, RotationMode::ForHitTesting));
        }
    }
}

#[test]
fn rotation_of_floats_by_thirty_degrees() {
    let make = |degrees, mode| {
        let origin = (Px(10.0), Px(20.0));
        ComputedTransform3D::make_rotation(origin, Px(degrees), Px(0.0), Px(0.0), Px(1.0), mode)
    };
    let hit = make(30.0, RotationMode::ForHitTesting);
    let p = hit.transform_point2d(LogicalPosition::new(Px(20.0), Px(20.0))).unwrap();
    // theta is a full turn less 30 degrees
    assert!(close(p.x.0, 10.0 + 8.660254) && close(p.y.0, 20.0 - 5.0));
    let render = make(30.0, RotationMode::ForWebRender);
    let q = render.transform_point2d(p).unwrap();
    assert!(close(q.x.0, 20.0) && close(q.y.0, 20.0));
    assert_eq!(render, make(-30.0, RotationMode::ForHitTesting));
}

#[test]
fn style_functions_without_angles() {
    let percent = Length::Percent(100i64);
    assert_eq!(
        single(StyleTransform::Matrix(StyleTransformMatrix2D {
            a: px(1),
            b: px(2),
            c: px(3),
            d: px(4),
            tx: percent,
            ty: percent,
        })),
        ComputedTransform3D::new_2d(1, 2, 3, 4, 200, 200)
    );
    assert_eq!(
        single(StyleTransform::Matrix3D(StyleTransformMatrix3D {
            m11: px(1),
            m12: px(2),
            m13: px(3),
            m14: px(4),
            m21: px(5),
            m22: px(6),
            m23: px(7),
            m24: px(8),
            m31: px(9),
            m32: px(10),
            m33: px(11),
            m34: px(12),
            m41: px(13),
            m42: percent,
            m43: px(15),
            m44: px(16),
        })),
        matrix([[1, 2, 3, 4], [5, 6, 7, 8], [9, 10, 11, 12], [13, 200, 15, 16]])
    );
    assert_eq!(
        single(StyleTransform::Translate(StyleTransformTranslate2D { x: percent, y: percent })),
        ComputedTransform3D::new_translation(200, 300, 0)
    );
    assert_eq!(
        single(StyleTransform::Translate3D(StyleTransformTranslate3D {
            x: percent,
            y: percent,
            z: percent,
        })),
        ComputedTransform3D::new_translation(200, 300, 200)
    );
    assert_eq!(
        single(StyleTransform::TranslateX(percent)),
        ComputedTransform3D::new_translation(200, 0, 0)
    );
    assert_eq!(
        single(StyleTransform::TranslateY(percent)),
        ComputedTransform3D::new_translation(0, 300, 0)
    );
    assert_eq!(
        single(StyleTransform::TranslateZ(percent)),
        ComputedTransform3D::new_translation(0, 0, 200)
    );
    assert_eq!(
        single(StyleTransform::Scale(StyleTransformScale2D { x: 2, y: 3 })),
        ComputedTransform3D::new_scale(2, 3, 0)
    );
    assert_eq!(
        single(StyleTransform::Scale3D(StyleTransformScale3D { x: 2, y: 3, z: 4 })),
        ComputedTransform3D::new_scale(2, 3, 4)
    );
    assert_eq!(single(StyleTransform::ScaleX(2)), ComputedTransform3D::new_scale(2, 0, 0));
    assert_eq!(single(StyleTransform::ScaleY(2)), ComputedTransform3D::new_scale(0, 2, 0));
    assert_eq!(single(StyleTransform::ScaleZ(2)), ComputedTransform3D::new_scale(0, 0, 2));
    assert_eq!(
        single(StyleTransform::Perspective(px(-1))),
        ComputedTransform3D::new_perspective(-1)
    );
}

#[test]
fn style_functions_that_skew() {
    let of = |t| {
        ComputedTransform3D::from_style_transform(
            &t,
            &StyleTransformOrigin::default(),
            Px(200.0),
            Px(300.0),
            RotationMode::ForHitTesting,
        )
    };
    let skewed = |x, y| ComputedTransform3D::new_skew(Px(x), Px(y));
    assert_eq!(
        of(StyleTransform::Skew(StyleTransformSkew2D { x: Px(20.0), y: Px(30.0) })),
        skewed(20.0, 30.0)
    );
    assert_eq!(of(StyleTransform::SkewX(Px(20.0))), skewed(20.0, 0.0));
    assert_eq!(of(StyleTransform::SkewY(Px(20.0))), skewed(0.0, 20.0));
}

#[test]
fn skew_of_whole_numbers() {
    let m = ComputedTransform3D::new_skew(45i64, -64);
    assert_eq!(m.m, [[1, -2, 0, 0], [1, 1, 0, 0], [0, 0, 1, 0], [0, 0, 0, 1]]);
    assert_eq!(single(StyleTransform::SkewX(45)).transform_point2d(point(3, 10)), Some(point(13, 10)));
    assert_eq!(single(StyleTransform::SkewY(45)).transform_point2d(point(3, 10)), Some(point(3, 13)));
}

#[test]
fn style_functions_with_angles() {
    let angle: i64 = 180;
    let o = StyleTransformOrigin { x: Length::Percent(100), y: px(9) };
    let make = |t| {
        ComputedTransform3D::from_style_transform(&t, &o, 200, 300, RotationMode::ForHitTesting)
    };
    let about = |x, y, z| {
        ComputedTransform3D::make_rotation((200, 9), angle, x, y, z, RotationMode::ForHitTesting)
    };
    assert_eq!(make(StyleTransform::RotateX(angle)), about(1, 0, 0));
    assert_eq!(make(StyleTransform::RotateY(angle)), about(0, 1, 0));
    assert_eq!(make(StyleTransform::RotateZ(angle)), about(0, 0, 1));
    assert_eq!(make(StyleTransform::Rotate(angle)), about(0, 0, 1));
    assert_eq!(
        make(StyleTransform::Rotate3D(StyleTransformRotate3D { x: 2, y: 3, z: 4, angle })),
        about(2, 3, 4)
    );
    assert_eq!(
        make(StyleTransform::Rotate(angle)).transform_point2d(point(201, 9)),
        Some(point(199, 9))
    );
}

#[test]
fn style_lists_apply_in_order_on_every_cpu() {
    let list = vec![
        StyleTransform::TranslateX(px(2)),
        StyleTransform::Scale3D(StyleTransformScale3D { x: 10, y: 10, z: 1 }),
        StyleTransform::Rotate(180),
        StyleTransform::Matrix(StyleTransformMatrix2D {
            a: px(1),
            b: px(0),
            c: px(3),
            d: px(1),
            tx: px(0),
            ty: px(0),
        }),
    ];
    let of = |list: &[StyleTransform<i64>], cpu: CpuFeatures| {
        ComputedTransform3D::from_style_transform_vec(
            list,
            &origin(1, 1),
            200,
            300,
            RotationMode::ForHitTesting,
            cpu,
        )
    };
    for cpu in all_cpus() {
        assert_eq!(of(&[], cpu), ComputedTransform3D::identity());
        assert_eq!(of(&list[..1], cpu), ComputedTransform3D::new_translation(2, 0, 0));
        // (1, 5) -> (3, 5) -> (30, 50)
        assert_eq!(of(&list[..2], cpu).transform_point2d(point(1, 5)), Some(point(30, 50)));
        // turned about (1, 1) to (-28, -48)
        assert_eq!(of(&list[..3], cpu).transform_point2d(point(1, 5)), Some(point(-28, -48)));
        // the last one adds three times y to x
        assert_eq!(of(&list, cpu).transform_point2d(point(1, 5)), Some(point(-172, -48)));
        for k in 0..5 {
            assert_eq!(
                of(&list[..k], cpu).followed_by(&of(&list[k..], cpu)),
                of(&list, cpu)
            );
        }
    }
}

#[test]
fn cpu_features_are_read_off_the_registers() {
    let avx: u32 = 1 << 28;
    let sse: u32 = 1 << 25;
    let none = CpuFeatures { initialized: true, use_avx: false, use_sse: false };
    assert_eq!(CpuFeatures::detect(0, avx, sse), none);
    assert_eq!(CpuFeatures::detect(1, !avx, !sse), none);
    assert_eq!(CpuFeatures::detect(1, avx, 0), CpuFeatures { use_avx: true, ..none });
    assert_eq!(CpuFeatures::detect(13, 0, sse), CpuFeatures { use_sse: true, ..none });
    assert_eq!(
        CpuFeatures::unknown(),
        CpuFeatures { initialized: false, use_avx: false, use_sse: false }
    );
}

#[test]
fn whole_numbers_wrap_and_round() {
    assert_eq!(i64::MAX.plus(1), i64::MIN);
    assert_eq!(i64::MIN.minus(1), i64::MAX);
    assert_eq!((1i64 << 62).times(4), 0);
    assert_eq!(i64::MIN.negated(), i64::MIN);
    assert_eq!((1i64 << 62).mul_add(4, 5), 5);
    assert_eq!(7i64.over(2), 3);
    assert_eq!((-7i64).over(2), -3);
    assert_eq!(7i64.over(0), 0);
    assert_eq!(i64::MIN.over(-1), i64::MIN);
    assert_eq!(<i64 as Scalar>::half(), 0);
    assert_eq!(<i64 as Scalar>::hundred(), 100);
    assert_eq!(3i64.maximum(4), 4);
    assert_eq!(3i64.minimum(4), 3);
    assert!(0i64.is_sign_positive() && !(-1i64).is_sign_positive());
    assert_eq!((-5i64).round_to_isize(), -5);
    assert_eq!(<i64 as Scalar>::pi(), 180);
    assert_eq!(7i64.to_radians(), 7);
    let sines: Vec<i64> = [0i64, 30, 90, 180, 270, 360, 450, -90].iter().map(|d| d.sin()).collect();
    assert_eq!(sines, [0, 0, 1, 0, -1, 0, 1, -1]);
    let cosines: Vec<i64> = [0i64, 30, 90, 180, 270, 360, 540, -90].iter().map(|d| d.cos()).collect();
    assert_eq!(cosines, [1, 0, 0, -1, 0, 1, -1, 0]);
    let tangents: Vec<i64> = [0i64, 44, 45, 63, 64, 84, 89, 90, 135, 180, 225, 315, -45, -89]
        .iter()
        .map(|d| d.tan())
        .collect();
    assert_eq!(tangents, [0, 0, 1, 1, 2, 9, 57, 0, -1, 0, 1, -1, -1, -57]);
    for degrees in -360i64..361 {
        if degrees % 90 != 0 && degrees % 45 != 0 {
            let tangent = (degrees as f64).to_radians().tan();
            assert_eq!(degrees.tan(), tangent.trunc() as i64);
        }
    }
}

#[test]
fn keys_start_over_after_the_last_id() {
    let mut source = KeySource { next: usize::MAX };
    let a: TransformKey = source.unique();
    let b: TransformKey = source.unique();
    assert_eq!(a, TransformKey { id: usize::MAX });
    assert_eq!(b, TransformKey { id: 0 });
    assert_eq!(source, KeySource { next: 1 });
    assert_eq!(KeySource::new(), KeySource { next: 0 });
}
