//! Laws of what each function of a `transform` property does to points.
use crate::formal_sum::{group_formal_sum, lemma_same, FormalSum};
use crate::geometry::LogicalPosition;
use crate::point_laws::law_rotation_keeps_its_origin;
use crate::ring::{
    lemma_distributes, lemma_factor_cancels, lemma_negated, lemma_one_times, lemma_regroups,
    lemma_times_zero, lemma_zero_plus, Angles, Field, Ring,
};
use crate::rotation_laws::{lemma_determinant_by_minors, lemma_mixed_entry};
use crate::scalar::Scalar;
use crate::style::{
    Length, StyleTransform, StyleTransformMatrix2D, StyleTransformMatrix3D, StyleTransformOrigin,
    StyleTransformRotate3D, StyleTransformScale2D, StyleTransformScale3D, StyleTransformSkew2D,
    StyleTransformTranslate2D, StyleTransformTranslate3D,
};
use crate::transform::{lemma_tabulate_at, ComputedTransform3D, CpuFeatures, RotationMode};
use crate::transform_laws::{
    law_followed_by_is_associative, law_identity_is_neutral, lemma_dot4_unit, lemma_dot_scaled,
    lemma_followed_by_at,
};
use vstd::prelude::*;

verus! {

/// Coordinate `j` of the image of the point (x, y, z) with weight `w`: x, y and z for `j`
/// from 0 to 2, and the weight for 3.
pub open spec fn image4<S: Scalar>(
    m: ComputedTransform3D<S>,
    x: S,
    y: S,
    z: S,
    w: S,
    j: int,
) -> S {
    x.spec_times(m.at(0, j)).spec_plus(y.spec_times(m.at(1, j))).spec_plus(
        z.spec_times(m.at(2, j)),
    ).spec_plus(w.spec_times(m.at(3, j)))
}

/// Whether a transform takes the point (x, y, z) with weight 1 to the point (a, b, c)
/// with weight `w`.
pub open spec fn takes<S: Scalar>(
    m: ComputedTransform3D<S>,
    x: S,
    y: S,
    z: S,
    a: S,
    b: S,
    c: S,
    w: S,
) -> bool {
    &&& image4(m, x, y, z, S::spec_one(), 0) == a
    &&& image4(m, x, y, z, S::spec_one(), 1) == b
    &&& image4(m, x, y, z, S::spec_one(), 2) == c
    &&& image4(m, x, y, z, S::spec_one(), 3) == w
}

/// The pixels of a length: its own, or its share of the whole.
pub open spec fn share_of<S: Scalar>(length: Length<S>, whole: S) -> S {
    match length {
        Length::Absolute(px) => px,
        Length::Percent(percent) => percent.spec_over(S::spec_hundred()).spec_times(whole),
    }
}

/// The image under a combination is the image of the image, in all four coordinates.
pub proof fn law_product_applies_after_in_space<S: Ring>(
    a: ComputedTransform3D<S>,
    b: ComputedTransform3D<S>,
    x: S,
    y: S,
    z: S,
    w: S,
    j: int,
)
    requires
        0 <= j < 4,
    ensures
        image4(a.spec_followed_by(b), x, y, z, w, j) == image4(
            b,
            image4(a, x, y, z, w, 0),
            image4(a, x, y, z, w, 1),
            image4(a, x, y, z, w, 2),
            image4(a, x, y, z, w, 3),
            j,
        ),
{
    let o = S::spec_zero();
    let v = ComputedTransform3D::spec_new(x, y, z, w, o, o, o, o, o, o, o, o, o, o, o, o);
    law_followed_by_is_associative(v, a, b);
    lemma_followed_by_at(v, a);
    lemma_followed_by_at(v, a.spec_followed_by(b));
    lemma_followed_by_at(v.spec_followed_by(a), b);
    assert(v.spec_followed_by(a).at(0, 0) == image4(a, x, y, z, w, 0));
    assert(v.spec_followed_by(a).at(0, 1) == image4(a, x, y, z, w, 1));
    assert(v.spec_followed_by(a).at(0, 2) == image4(a, x, y, z, w, 2));
    assert(v.spec_followed_by(a).at(0, 3) == image4(a, x, y, z, w, 3));
    assert(v.spec_followed_by(a.spec_followed_by(b)).at(0, j) == image4(
        a.spec_followed_by(b),
        x,
        y,
        z,
        w,
        j,
    ));
}

/// The identity leaves every point of the space in place.
pub proof fn law_identity_in_space<S: Ring>(x: S, y: S, z: S, w: S)
    ensures
        image4(ComputedTransform3D::<S>::spec_identity(), x, y, z, w, 0) == x,
        image4(ComputedTransform3D::<S>::spec_identity(), x, y, z, w, 1) == y,
        image4(ComputedTransform3D::<S>::spec_identity(), x, y, z, w, 2) == z,
        image4(ComputedTransform3D::<S>::spec_identity(), x, y, z, w, 3) == w,
{
    lemma_dot4_unit(x, y, z, w);
}

/// A translation of a style adds its offset to every point: percentages are those of the
/// height along the y axis, and of the width along the others.
pub proof fn law_style_translations<S: Ring>(
    d: StyleTransformTranslate3D<S>,
    origin: StyleTransformOrigin<S>,
    width: S,
    height: S,
    mode: RotationMode,
    x: S,
    y: S,
    z: S,
)
    ensures
        takes(
            ComputedTransform3D::spec_from_style_transform(
                StyleTransform::Translate3D(d),
                origin,
                width,
                height,
                mode,
            ),
            x,
            y,
            z,
            x.spec_plus(share_of(d.x, width)),
            y.spec_plus(share_of(d.y, height)),
            z.spec_plus(share_of(d.z, width)),
            S::spec_one(),
        ),
{
    lemma_translation_takes(
        share_of(d.x, width),
        share_of(d.y, height),
        share_of(d.z, width),
        x,
        y,
        z,
    );
}

proof fn lemma_translation_takes<S: Ring>(tx: S, ty: S, tz: S, x: S, y: S, z: S)
    ensures
        takes(
            ComputedTransform3D::spec_new_translation(tx, ty, tz),
            x,
            y,
            z,
            x.spec_plus(tx),
            y.spec_plus(ty),
            z.spec_plus(tz),
            S::spec_one(),
        ),
{
    let zero = S::spec_zero();
    S::times_one(x);
    S::times_one(y);
    S::times_one(z);
    S::times_one(S::spec_one());
    lemma_times_zero(x);
    lemma_times_zero(y);
    lemma_times_zero(z);
    lemma_one_times(tx);
    lemma_one_times(ty);
    lemma_one_times(tz);
    S::plus_zero(x);
    S::plus_zero(zero);
    S::plus_zero(y);
    lemma_zero_plus(y);
    lemma_zero_plus(z);
    lemma_zero_plus(S::spec_one());
}

/// A scale of a style multiplies every coordinate by its factor.
pub proof fn law_style_scales<S: Ring>(
    s: StyleTransformScale3D<S>,
    origin: StyleTransformOrigin<S>,
    width: S,
    height: S,
    mode: RotationMode,
    x: S,
    y: S,
    z: S,
)
    ensures
        takes(
            ComputedTransform3D::spec_from_style_transform(
                StyleTransform::Scale3D(s),
                origin,
                width,
                height,
                mode,
            ),
            x,
            y,
            z,
            x.spec_times(s.x),
            y.spec_times(s.y),
            z.spec_times(s.z),
            S::spec_one(),
        ),
{
    let zero = S::spec_zero();
    let one = S::spec_one();
    S::times_one(one);
    lemma_times_zero(x);
    lemma_times_zero(y);
    lemma_times_zero(z);
    lemma_times_zero(one);
    S::plus_zero(x.spec_times(s.x));
    S::plus_zero(y.spec_times(s.y));
    S::plus_zero(z.spec_times(s.z));
    S::plus_zero(zero);
    lemma_zero_plus(y.spec_times(s.y));
    lemma_zero_plus(z.spec_times(s.z));
    lemma_zero_plus(one);
}

/// A skew of a style moves a point sideways by the tangent of the first angle for every
/// unit of its height, and downwards by that of the second one for every unit of its
/// width.
pub proof fn law_style_skews<S: Ring>(
    s: StyleTransformSkew2D<S>,
    origin: StyleTransformOrigin<S>,
    width: S,
    height: S,
    mode: RotationMode,
    x: S,
    y: S,
    z: S,
)
    ensures
        takes(
            ComputedTransform3D::spec_from_style_transform(
                StyleTransform::Skew(s),
                origin,
                width,
                height,
                mode,
            ),
            x,
            y,
            z,
            x.spec_plus(y.spec_times(s.x.spec_to_radians().spec_tan())),
            x.spec_times(s.y.spec_to_radians().spec_tan()).spec_plus(y),
            z,
            S::spec_one(),
        ),
{
    let zero = S::spec_zero();
    let one = S::spec_one();
    let a = x.spec_plus(y.spec_times(s.x.spec_to_radians().spec_tan()));
    let b = x.spec_times(s.y.spec_to_radians().spec_tan()).spec_plus(y);
    S::times_one(one);
    S::times_one(x);
    S::times_one(y);
    S::times_one(z);
    lemma_times_zero(x);
    lemma_times_zero(y);
    lemma_times_zero(z);
    lemma_times_zero(one);
    S::plus_zero(a);
    S::plus_zero(b);
    S::plus_zero(zero);
    S::plus_zero(z);
    lemma_zero_plus(z);
    lemma_zero_plus(one);
}

/// A perspective of a style leaves points where they are and takes the share of the
/// distance that they lie deep off their weight.
pub proof fn law_style_perspectives<S: Ring>(
    d: Length<S>,
    origin: StyleTransformOrigin<S>,
    width: S,
    height: S,
    mode: RotationMode,
    x: S,
    y: S,
    z: S,
)
    ensures
        takes(
            ComputedTransform3D::spec_from_style_transform(
                StyleTransform::Perspective(d),
                origin,
                width,
                height,
                mode,
            ),
            x,
            y,
            z,
            x,
            y,
            z,
            z.spec_times(S::spec_one().spec_negated().spec_over(share_of(d, width))).spec_plus(
                S::spec_one(),
            ),
        ),
{
    let zero = S::spec_zero();
    let one = S::spec_one();
    let share = z.spec_times(one.spec_negated().spec_over(share_of(d, width)));
    S::times_one(one);
    S::times_one(x);
    S::times_one(y);
    S::times_one(z);
    lemma_times_zero(x);
    lemma_times_zero(y);
    lemma_times_zero(z);
    lemma_times_zero(one);
    S::plus_zero(x);
    S::plus_zero(y);
    S::plus_zero(z);
    S::plus_zero(zero);
    lemma_zero_plus(y);
    lemma_zero_plus(z);
    lemma_zero_plus(share);
}

/// In a field, a point that lies as deep as the distance of the perspective has no weight.
pub proof fn law_perspective_vanishes_at_its_distance<S: Field>(d: S)
    requires
        d != S::spec_zero(),
    ensures
        d.spec_times(S::spec_one().spec_negated().spec_over(d)).spec_plus(S::spec_one())
            == S::spec_zero(),
{
    let minus_one = S::spec_one().spec_negated();
    S::over_undoes_times(minus_one, d);
    S::times_commutes(d, minus_one.spec_over(d));
    S::plus_negated(S::spec_one());
    S::plus_commutes(S::spec_one(), minus_one);
}

/// A two-dimensional matrix of a style, whose percentages are all of the width: it takes
/// a point to the combination of its columns and leaves the depth alone.
pub proof fn law_style_matrices<S: Ring>(
    m: StyleTransformMatrix2D<S>,
    origin: StyleTransformOrigin<S>,
    width: S,
    height: S,
    mode: RotationMode,
    x: S,
    y: S,
    z: S,
)
    ensures
        takes(
            ComputedTransform3D::spec_from_style_transform(
                StyleTransform::Matrix(m),
                origin,
                width,
                height,
                mode,
            ),
            x,
            y,
            z,
            x.spec_times(share_of(m.a, width)).spec_plus(
                y.spec_times(share_of(m.c, width)),
            ).spec_plus(share_of(m.tx, width)),
            x.spec_times(share_of(m.b, width)).spec_plus(
                y.spec_times(share_of(m.d, width)),
            ).spec_plus(share_of(m.ty, width)),
            z,
            S::spec_one(),
        ),
{
    let zero = S::spec_zero();
    let one = S::spec_one();
    let a = x.spec_times(share_of(m.a, width)).spec_plus(y.spec_times(share_of(m.c, width)));
    let b = x.spec_times(share_of(m.b, width)).spec_plus(y.spec_times(share_of(m.d, width)));
    S::times_one(one);
    S::times_one(z);
    lemma_times_zero(x);
    lemma_times_zero(y);
    lemma_times_zero(z);
    lemma_times_zero(one);
    lemma_one_times(share_of(m.tx, width));
    lemma_one_times(share_of(m.ty, width));
    S::plus_zero(a);
    S::plus_zero(b);
    S::plus_zero(zero);
    S::plus_zero(z);
    lemma_zero_plus(z);
    lemma_zero_plus(one);
}

/// A three-dimensional matrix of a style, whose percentages are all of the width: each
/// coefficient stands in its own row and column.
pub proof fn law_style_matrices_in_space<S: Scalar>(
    m: StyleTransformMatrix3D<S>,
    origin: StyleTransformOrigin<S>,
    width: S,
    height: S,
    mode: RotationMode,
)
    ensures
        ({
            let r = ComputedTransform3D::spec_from_style_transform(
                StyleTransform::Matrix3D(m),
                origin,
                width,
                height,
                mode,
            );
            &&& r.at(0, 0) == share_of(m.m11, width) && r.at(0, 1) == share_of(m.m12, width)
            &&& r.at(0, 2) == share_of(m.m13, width) && r.at(0, 3) == share_of(m.m14, width)
            &&& r.at(1, 0) == share_of(m.m21, width) && r.at(1, 1) == share_of(m.m22, width)
            &&& r.at(1, 2) == share_of(m.m23, width) && r.at(1, 3) == share_of(m.m24, width)
            &&& r.at(2, 0) == share_of(m.m31, width) && r.at(2, 1) == share_of(m.m32, width)
            &&& r.at(2, 2) == share_of(m.m33, width) && r.at(2, 3) == share_of(m.m34, width)
            &&& r.at(3, 0) == share_of(m.m41, width) && r.at(3, 1) == share_of(m.m42, width)
            &&& r.at(3, 2) == share_of(m.m43, width) && r.at(3, 3) == share_of(m.m44, width)
        }),
{
}

/// The functions for single axes are short for those for all axes: what they do not name
/// is 0, and the axis of a rotation has the length 1.
pub proof fn law_short_functions<S: Scalar>(
    a: S,
    b: S,
    l: Length<S>,
    k: Length<S>,
    origin: StyleTransformOrigin<S>,
    width: S,
    height: S,
    mode: RotationMode,
)
    ensures
        ({
            let none = Length::Absolute(S::spec_zero());
            let o = S::spec_zero();
            let one = S::spec_one();
            let f = |t: StyleTransform<S>|
                ComputedTransform3D::spec_from_style_transform(t, origin, width, height, mode);
            let turn = |x: S, y: S, z: S|
                f(StyleTransform::Rotate3D(StyleTransformRotate3D { x, y, z, angle: a }));
            let moved = |x: Length<S>, y: Length<S>, z: Length<S>|
                f(StyleTransform::Translate3D(StyleTransformTranslate3D { x, y, z }));
            let scaled = |x: S, y: S, z: S|
                f(StyleTransform::Scale3D(StyleTransformScale3D { x, y, z }));
            let skewed = |x: S, y: S|
                f(StyleTransform::Skew(StyleTransformSkew2D { x, y }));
            &&& f(StyleTransform::RotateX(a)) == turn(one, o, o)
            &&& f(StyleTransform::RotateY(a)) == turn(o, one, o)
            &&& f(StyleTransform::RotateZ(a)) == turn(o, o, one)
            &&& f(StyleTransform::Rotate(a)) == turn(o, o, one)
            &&& f(StyleTransform::Rotate(a)) == f(StyleTransform::RotateZ(a))
            &&& f(StyleTransform::TranslateX(l)) == moved(l, none, none)
            &&& f(StyleTransform::TranslateY(l)) == moved(none, l, none)
            &&& f(StyleTransform::TranslateZ(l)) == moved(none, none, l)
            &&& f(StyleTransform::Translate(StyleTransformTranslate2D { x: l, y: k })) == moved(
                l,
                k,
                none,
            )
            &&& f(StyleTransform::ScaleX(a)) == scaled(a, o, o)
            &&& f(StyleTransform::ScaleY(a)) == scaled(o, a, o)
            &&& f(StyleTransform::ScaleZ(a)) == scaled(o, o, a)
            &&& f(StyleTransform::Scale(StyleTransformScale2D { x: a, y: b })) == scaled(a, b, o)
            &&& f(StyleTransform::SkewX(a)) == skewed(a, o)
            &&& f(StyleTransform::SkewY(a)) == skewed(o, a)
        }),
{
}

/// Every rotation of a style leaves its origin in place: the share of the width along the
/// x axis and the share of the height along the y axis.
pub proof fn law_style_rotations_keep_the_origin<S: Ring>(
    t: StyleTransform<S>,
    origin: StyleTransformOrigin<S>,
    width: S,
    height: S,
    mode: RotationMode,
)
    requires
        t is Rotate || t is RotateX || t is RotateY || t is RotateZ || t is Rotate3D,
    ensures
        ({
            let p = LogicalPosition {
                x: share_of(origin.x, width),
                y: share_of(origin.y, height),
            };
            ComputedTransform3D::spec_from_style_transform(
                t,
                origin,
                width,
                height,
                mode,
            ).spec_transform_point2d(p) == Some(p)
        }),
{
    let zero = S::spec_zero();
    let one = S::spec_one();
    let p = LogicalPosition { x: share_of(origin.x, width), y: share_of(origin.y, height) };
    match t {
        StyleTransform::Rotate(a) => {
            law_rotation_keeps_its_origin(p, a, zero, zero, one, mode);
        },
        StyleTransform::RotateX(a) => {
            law_rotation_keeps_its_origin(p, a, one, zero, zero, mode);
        },
        StyleTransform::RotateY(a) => {
            law_rotation_keeps_its_origin(p, a, zero, one, zero, mode);
        },
        StyleTransform::RotateZ(a) => {
            law_rotation_keeps_its_origin(p, a, zero, zero, one, mode);
        },
        StyleTransform::Rotate3D(r) => {
            law_rotation_keeps_its_origin(p, r.angle, r.x, r.y, r.z, mode);
        },
        _ => {},
    }
}

/// The cross product of two vectors.
pub open spec fn cross<S: Scalar>(a: (S, S, S), b: (S, S, S)) -> (S, S, S) {
    (
        a.1.spec_times(b.2).spec_minus(a.2.spec_times(b.1)),
        a.2.spec_times(b.0).spec_minus(a.0.spec_times(b.2)),
        a.0.spec_times(b.1).spec_minus(a.1.spec_times(b.0)),
    )
}

/// `p + d * u + q * v`, in one coordinate.
pub open spec fn turned<S: Scalar>(p: S, d: S, u: S, q: S, v: S) -> S {
    p.spec_plus(d.spec_times(u)).spec_plus(q.spec_times(v))
}

proof fn lemma_nested<S: Ring>(q: S, b: S, a: S, p: S, t: S)
    requires
        t == a.spec_times(b).spec_times(q),
    ensures
        q.spec_times(b.spec_times(a.spec_times(p))) == p.spec_times(t),
{
    S::times_associates(b, a, p);
    S::times_associates(q, b.spec_times(a), p);
    S::times_commutes(q, b.spec_times(a));
    S::times_commutes(b, a);
    S::times_commutes(t, p);
}

/// A vector turned about the axis (a, b, c), in the coordinate of `a`.
proof fn lemma_turned<S: Ring>(a: S, b: S, c: S, d: S, q: S, pa: S, pb: S, pc: S)
    ensures
        pa.spec_times(
            S::spec_one().spec_minus(b.spec_times(b).spec_plus(c.spec_times(c)).spec_times(q)),
        ).spec_plus(
            pb.spec_times(a.spec_times(b).spec_times(q).spec_minus(c.spec_times(d))),
        ).spec_plus(pc.spec_times(a.spec_times(c).spec_times(q).spec_plus(b.spec_times(d))))
            == turned(
            pa,
            d,
            b.spec_times(pc).spec_minus(c.spec_times(pb)),
            q,
            b.spec_times(a.spec_times(pb).spec_minus(b.spec_times(pa))).spec_minus(
                c.spec_times(c.spec_times(pa).spec_minus(a.spec_times(pc))),
            ),
        ),
{
    broadcast use group_formal_sum;

    let bb = b.spec_times(b);
    let cc = c.spec_times(c);
    let (bbq, ccq) = (bb.spec_times(q), cc.spec_times(q));
    let abq = a.spec_times(b).spec_times(q);
    let acq = a.spec_times(c).spec_times(q);
    let (cd, bd) = (c.spec_times(d), b.spec_times(d));
    let (t1, t2) = (pa.spec_times(bbq), pa.spec_times(ccq));
    let (t3, t4) = (pb.spec_times(abq), pb.spec_times(cd));
    let (t5, t6) = (pc.spec_times(acq), pc.spec_times(bd));
    // what the matrix does
    lemma_distributes(bb, cc, q);
    lemma_distributes(S::spec_one(), bbq.spec_plus(ccq), pa);
    S::times_one(pa);
    lemma_distributes(bbq, ccq, pa);
    lemma_regroups(pa, t1, t2);
    lemma_distributes(abq, cd, pb);
    lemma_distributes(acq, bd, pc);
    let s = pa.spec_minus(t1).spec_minus(t2);
    lemma_regroups(s, t3, t4);
    lemma_regroups(s.spec_plus(t3).spec_minus(t4), t5, t6);
    // what the cross products do
    lemma_distributes(b.spec_times(pc), c.spec_times(pb), d);
    S::times_associates(d, b, pc);
    S::times_commutes(d, b);
    S::times_commutes(bd, pc);
    S::times_associates(d, c, pb);
    S::times_commutes(d, c);
    S::times_commutes(cd, pb);
    lemma_distributes(a.spec_times(pb), b.spec_times(pa), b);
    lemma_distributes(c.spec_times(pa), a.spec_times(pc), c);
    let (u1, u2) = (b.spec_times(a.spec_times(pb)), b.spec_times(b.spec_times(pa)));
    let (u3, u4) = (c.spec_times(c.spec_times(pa)), c.spec_times(a.spec_times(pc)));
    lemma_distributes(u1.spec_minus(u2), u3.spec_minus(u4), q);
    lemma_distributes(u1, u2, q);
    lemma_distributes(u3, u4, q);
    lemma_nested(q, b, a, pb, abq);
    lemma_nested(q, b, b, pa, bbq);
    lemma_nested(q, c, c, pa, ccq);
    lemma_nested(q, c, a, pc, acq);
    lemma_regroups(pa, t6, t4);
    let w = pa.spec_plus(t6).spec_minus(t4);
    lemma_regroups(w, t3.spec_minus(t1), t2.spec_minus(t5));
    lemma_regroups(w, t3, t1);
    lemma_regroups(t3.spec_minus(t1), t2, t5);
    lemma_regroups(w, t3.spec_minus(t1).spec_minus(t2), t5);
    lemma_regroups(w, t3.spec_minus(t1), t2);
    lemma_zero_plus(pa);
    let n = FormalSum::<S>::none();
    let x = n.and(pa).less(t1).less(t2).and(t3).less(t4).and(t5).and(t6);
    let y = n.and(pa).and(t6).less(t4).and(t3).less(t1).less(t2).and(t5);
    assert(x.value() == s.spec_plus(t3).spec_minus(t4).spec_plus(t5).spec_plus(t6));
    assert(y.value() == w.spec_plus(t3).spec_minus(t1).spec_minus(t2).spec_plus(t5));
    assert(x.added =~= y.added);
    assert(x.subtracted =~= y.subtracted);
    lemma_same(x, y);
}

/// A rotation turns every vector about its axis: with the axis k, the vector p becomes
/// `p + 2sc (k x p) + 2ss (k x (k x p))`, where s and c are the sine and the cosine of
/// half of the angle.
pub proof fn law_rotation_turns_vectors<S: Ring>(axis: (S, S, S), theta: S, p: (S, S, S))
    ensures
        ({
            let sin = theta.spec_over(S::spec_two()).spec_sin();
            let cos = theta.spec_over(S::spec_two()).spec_cos();
            let d = S::spec_two().spec_times(sin.spec_times(cos));
            let q = S::spec_two().spec_times(sin.spec_times(sin));
            let u = cross(axis, p);
            let v = cross(axis, u);
            takes(
                ComputedTransform3D::spec_new_rotation(axis.0, axis.1, axis.2, theta),
                p.0,
                p.1,
                p.2,
                turned(p.0, d, u.0, q, v.0),
                turned(p.1, d, u.1, q, v.1),
                turned(p.2, d, u.2, q, v.2),
                S::spec_one(),
            )
        }),
{
    let (x, y, z) = axis;
    let two = S::spec_two();
    let one = S::spec_one();
    let zero = S::spec_zero();
    let sin = theta.spec_over(two).spec_sin();
    let cos = theta.spec_over(two).spec_cos();
    let sq = sin.spec_times(sin);
    let sc = sin.spec_times(cos);
    let d = two.spec_times(sc);
    let q = two.spec_times(sq);
    let (xx, yy, zz) = (x.spec_times(x), y.spec_times(y), z.spec_times(z));
    lemma_pulled_out(yy.spec_plus(zz), sq);
    lemma_pulled_out(xx.spec_plus(zz), sq);
    lemma_pulled_out(xx.spec_plus(yy), sq);
    S::plus_commutes(xx, zz);
    lemma_mixed_entry(x.spec_times(y), z, sq, sc);
    lemma_mixed_entry(x.spec_times(z), y, sq, sc);
    lemma_mixed_entry(y.spec_times(z), x, sq, sc);
    S::times_commutes(x, y);
    S::times_commutes(x, z);
    S::times_commutes(y, z);
    lemma_turned(x, y, z, d, q, p.0, p.1, p.2);
    lemma_turned(y, z, x, d, q, p.1, p.2, p.0);
    lemma_turned(z, x, y, d, q, p.2, p.0, p.1);
    let m = ComputedTransform3D::spec_new_rotation(x, y, z, theta);
    lemma_plain_column(p, m.at(0, 0), m.at(1, 0), m.at(2, 0));
    lemma_plain_column(p, m.at(0, 1), m.at(1, 1), m.at(2, 1));
    lemma_plain_column(p, m.at(0, 2), m.at(1, 2), m.at(2, 2));
    lemma_times_zero(p.0);
    lemma_times_zero(p.1);
    lemma_times_zero(p.2);
    S::plus_zero(zero);
    S::times_one(one);
    lemma_zero_plus(one);
}

/// `two * b * t` is `b * (two * t)`.
proof fn lemma_pulled_out<S: Ring>(b: S, t: S)
    ensures
        S::spec_two().spec_times(b).spec_times(t) == b.spec_times(S::spec_two().spec_times(t)),
{
    S::times_commutes(S::spec_two(), b);
    S::times_associates(b, S::spec_two(), t);
}

/// A column that ends with 0, applied to a point, in every order of the coordinates.
proof fn lemma_plain_column<S: Ring>(p: (S, S, S), c0: S, c1: S, c2: S)
    ensures
        ({
            let t0 = p.0.spec_times(c0);
            let t1 = p.1.spec_times(c1);
            let t2 = p.2.spec_times(c2);
            let sum = t0.spec_plus(t1).spec_plus(t2).spec_plus(
                S::spec_one().spec_times(S::spec_zero()),
            );
            &&& sum == t0.spec_plus(t1).spec_plus(t2)
            &&& sum == t1.spec_plus(t2).spec_plus(t0)
            &&& sum == t2.spec_plus(t0).spec_plus(t1)
        }),
{
    let t0 = p.0.spec_times(c0);
    let t1 = p.1.spec_times(c1);
    let t2 = p.2.spec_times(c2);
    lemma_times_zero(S::spec_one());
    S::plus_zero(t0.spec_plus(t1).spec_plus(t2));
    S::plus_associates(t0, t1, t2);
    S::plus_commutes(t0, t1.spec_plus(t2));
    S::plus_associates(t2, t0, t1);
    S::plus_commutes(t2, t0.spec_plus(t1));
}

/// A rotation about a point turns what lies around the point: the vector from the point to
/// any other one is turned, and the depth counts from 0.
pub proof fn law_rotation_turns_around_its_origin<S: Ring>(
    origin: (S, S),
    degrees: S,
    axis: (S, S, S),
    mode: RotationMode,
    x: S,
    y: S,
    z: S,
)
    ensures
        ({
            let turn = ComputedTransform3D::spec_new_rotation(
                axis.0,
                axis.1,
                axis.2,
                ComputedTransform3D::spec_theta(degrees, mode),
            );
            let (dx, dy) = (x.spec_minus(origin.0), y.spec_minus(origin.1));
            takes(
                ComputedTransform3D::spec_make_rotation(
                    origin,
                    degrees,
                    axis.0,
                    axis.1,
                    axis.2,
                    mode,
                ),
                x,
                y,
                z,
                image4(turn, dx, dy, z, S::spec_one(), 0).spec_plus(origin.0),
                image4(turn, dx, dy, z, S::spec_one(), 1).spec_plus(origin.1),
                image4(turn, dx, dy, z, S::spec_one(), 2),
                S::spec_one(),
            )
        }),
{
    let zero = S::spec_zero();
    let one = S::spec_one();
    let (ox, oy) = origin;
    let turn = ComputedTransform3D::spec_new_rotation(
        axis.0,
        axis.1,
        axis.2,
        ComputedTransform3D::spec_theta(degrees, mode),
    );
    let pre = ComputedTransform3D::spec_new_translation(
        ox.spec_negated(),
        oy.spec_negated(),
        zero.spec_negated(),
    );
    let post = ComputedTransform3D::spec_new_translation(ox, oy, zero);
    let both = pre.spec_followed_by(turn);
    let (dx, dy) = (x.spec_minus(ox), y.spec_minus(oy));
    law_identity_is_neutral(turn);
    lemma_translation_takes(ox.spec_negated(), oy.spec_negated(), zero.spec_negated(), x, y, z);
    S::minus_adds_negated(x, ox);
    S::minus_adds_negated(y, oy);
    lemma_negated(zero, zero);
    S::plus_zero(z);
    law_product_applies_after_in_space(pre, turn, x, y, z, one, 0);
    law_product_applies_after_in_space(pre, turn, x, y, z, one, 1);
    law_product_applies_after_in_space(pre, turn, x, y, z, one, 2);
    law_product_applies_after_in_space(pre, turn, x, y, z, one, 3);
    let (a, b, c) = (
        image4(turn, dx, dy, z, one, 0),
        image4(turn, dx, dy, z, one, 1),
        image4(turn, dx, dy, z, one, 2),
    );
    law_rotation_turns_vectors(
        axis,
        ComputedTransform3D::spec_theta(degrees, mode),
        (dx, dy, z),
    );
    lemma_translation_takes(ox, oy, zero, a, b, c);
    S::plus_zero(c);
    law_product_applies_after_in_space(both, post, x, y, z, one, 0);
    law_product_applies_after_in_space(both, post, x, y, z, one, 1);
    law_product_applies_after_in_space(both, post, x, y, z, one, 2);
    law_product_applies_after_in_space(both, post, x, y, z, one, 3);
}

/// A full turn less an angle turns as the negated angle does.
proof fn lemma_full_turn_less<S: Angles>(x: S, y: S, z: S, angle: S)
    ensures
        ComputedTransform3D::spec_new_rotation(
            x,
            y,
            z,
            S::spec_two().spec_times(S::spec_pi()).spec_minus(angle),
        ) == ComputedTransform3D::spec_new_rotation(x, y, z, angle.spec_negated()),
{
    let two = S::spec_two();
    let pi = S::spec_pi();
    let turn = two.spec_times(pi);
    let h = angle.spec_negated().spec_over(two);
    let k = turn.spec_minus(angle).spec_over(two);
    S::divisors_are_not_zero();
    S::over_undoes_times(angle.spec_negated(), two);
    S::over_undoes_times(turn.spec_minus(angle), two);
    lemma_distributes(h, pi, two);
    S::times_commutes(pi, two);
    S::plus_commutes(angle.spec_negated(), turn);
    S::minus_adds_negated(turn, angle);
    lemma_factor_cancels(k, h.spec_plus(pi), two);
    S::half_turn(h);
}

/// For rendering, a rotation turns by its degrees, and for hit testing by as much in the
/// other sense.
pub proof fn law_rotation_turns_by_its_degrees<S: Angles>(x: S, y: S, z: S, degrees: S)
    ensures
        ComputedTransform3D::spec_new_rotation(
            x,
            y,
            z,
            ComputedTransform3D::spec_theta(degrees, RotationMode::ForWebRender),
        ) == ComputedTransform3D::spec_new_rotation(x, y, z, degrees.spec_to_radians()),
        ComputedTransform3D::spec_new_rotation(
            x,
            y,
            z,
            ComputedTransform3D::spec_theta(degrees, RotationMode::ForHitTesting),
        ) == ComputedTransform3D::spec_new_rotation(
            x,
            y,
            z,
            degrees.spec_to_radians().spec_negated(),
        ),
{
    let angle = degrees.spec_to_radians();
    lemma_full_turn_less(x, y, z, angle);
    lemma_full_turn_less(x, y, z, angle.spec_negated());
    S::radians_of_negated(degrees);
    lemma_negated(angle, angle);
}

/// A rotation of a style turns about its own axis, around its origin: the share of the
/// width along the x axis and the share of the height along the y axis, by its degrees
/// for rendering and by as much in the other sense for hit testing.
pub proof fn law_style_rotations<S: Angles>(
    r: StyleTransformRotate3D<S>,
    origin: StyleTransformOrigin<S>,
    width: S,
    height: S,
    mode: RotationMode,
    x: S,
    y: S,
    z: S,
)
    ensures
        ({
            let angle = match mode {
                RotationMode::ForWebRender => r.angle.spec_to_radians(),
                RotationMode::ForHitTesting => r.angle.spec_to_radians().spec_negated(),
            };
            let turn = ComputedTransform3D::spec_new_rotation(r.x, r.y, r.z, angle);
            let (ox, oy) = (share_of(origin.x, width), share_of(origin.y, height));
            let (dx, dy) = (x.spec_minus(ox), y.spec_minus(oy));
            takes(
                ComputedTransform3D::spec_from_style_transform(
                    StyleTransform::Rotate3D(r),
                    origin,
                    width,
                    height,
                    mode,
                ),
                x,
                y,
                z,
                image4(turn, dx, dy, z, S::spec_one(), 0).spec_plus(ox),
                image4(turn, dx, dy, z, S::spec_one(), 1).spec_plus(oy),
                image4(turn, dx, dy, z, S::spec_one(), 2),
                S::spec_one(),
            )
        }),
{
    law_rotation_turns_by_its_degrees(r.x, r.y, r.z, r.angle);
    law_rotation_turns_around_its_origin(
        (share_of(origin.x, width), share_of(origin.y, height)),
        r.angle,
        (r.x, r.y, r.z),
        mode,
        x,
        y,
        z,
    );
}

/// A point of the plane is taken to its image, divided by its weight there, unless the
/// weight is negative: then it is lost.
pub proof fn law_points_are_divided_by_their_weight<S: Field>(
    m: ComputedTransform3D<S>,
    p: LogicalPosition<S>,
)
    ensures
        ({
            let w = image4(m, p.x, p.y, S::spec_zero(), S::spec_one(), 3);
            match m.spec_transform_point2d(p) {
                None => !w.spec_is_sign_positive(),
                Some(q) => {
                    &&& w.spec_is_sign_positive()
                    &&& w != S::spec_zero() ==> {
                        &&& q.x.spec_times(w) == image4(
                            m,
                            p.x,
                            p.y,
                            S::spec_zero(),
                            S::spec_one(),
                            0,
                        )
                        &&& q.y.spec_times(w) == image4(
                            m,
                            p.x,
                            p.y,
                            S::spec_zero(),
                            S::spec_one(),
                            1,
                        )
                    }
                },
            }
        }),
{
    lemma_in_plane(m, p, 0);
    lemma_in_plane(m, p, 1);
    lemma_in_plane(m, p, 3);
    let w = image4(m, p.x, p.y, S::spec_zero(), S::spec_one(), 3);
    if w != S::spec_zero() {
        S::over_undoes_times(image4(m, p.x, p.y, S::spec_zero(), S::spec_one(), 0), w);
        S::over_undoes_times(image4(m, p.x, p.y, S::spec_zero(), S::spec_one(), 1), w);
    }
}

proof fn lemma_in_plane<S: Ring>(m: ComputedTransform3D<S>, p: LogicalPosition<S>, j: int)
    ensures
        p.x.spec_mul_add(m.at(0, j), p.y.spec_mul_add(m.at(1, j), m.at(3, j))) == image4(
            m,
            p.x,
            p.y,
            S::spec_zero(),
            S::spec_one(),
            j,
        ),
{
    let a = p.x.spec_times(m.at(0, j));
    let b = p.y.spec_times(m.at(1, j));
    let c = m.at(3, j);
    S::mul_add_is_exact(p.y, m.at(1, j), c);
    S::mul_add_is_exact(p.x, m.at(0, j), b.spec_plus(c));
    lemma_times_zero(m.at(2, j));
    S::plus_zero(a.spec_plus(b));
    lemma_one_times(c);
    S::plus_associates(a, b, c);
}

/// The determinant of a scale is the product of its factors.
pub proof fn law_determinant_of_scale<S: Ring>(x: S, y: S, z: S)
    ensures
        ComputedTransform3D::spec_new_scale(x, y, z).spec_determinant() == x.spec_times(
            y,
        ).spec_times(z),
{
    let m = ComputedTransform3D::spec_new_scale(x, y, z);
    let zero = S::spec_zero();
    let yz = y.spec_times(z);
    lemma_determinant_by_minors(m);
    lemma_times_zero(zero);
    lemma_times_zero(z);
    lemma_times_zero(y);
    lemma_negated(yz, zero);
    lemma_negated(zero, zero);
    S::times_associates(x, y, z);
    S::plus_zero(x.spec_times(yz));
}

/// Multiplying a transform by a number multiplies every image by it.
pub proof fn law_multiply_scalar_scales_images<S: Ring>(
    m: ComputedTransform3D<S>,
    factor: S,
    x: S,
    y: S,
    z: S,
    w: S,
    j: int,
)
    requires
        0 <= j < 4,
    ensures
        image4(m.spec_multiply_scalar(factor), x, y, z, w, j) == image4(
            m,
            x,
            y,
            z,
            w,
            j,
        ).spec_times(factor),
{
    lemma_tabulate_at(|i: int, j: int| m.at(i, j).spec_times(factor));
    lemma_dot_scaled(x, y, z, w, m.at(0, j), m.at(1, j), m.at(2, j), m.at(3, j), factor);
}

/// Processors that have not been looked at, or that report no features, have none; bit 28
/// of `ecx` stands for AVX and bit 25 of `edx` for SSE, and no other bit matters.
pub proof fn law_features_are_single_bits(leaf_count: u32, ecx: u32, edx: u32)
    ensures
        ({
            let cpu = CpuFeatures::spec_detect(leaf_count, ecx, edx);
            &&& cpu.initialized
            &&& cpu.use_avx <==> leaf_count > 0 && (ecx as int / 0x1000_0000) % 2 == 1
            &&& cpu.use_sse <==> leaf_count > 0 && (edx as int / 0x200_0000) % 2 == 1
        }),
        !CpuFeatures::spec_unknown().initialized,
        !CpuFeatures::spec_unknown().use_avx,
        !CpuFeatures::spec_unknown().use_sse,
{
    assert((ecx & (1u32 << 28u32)) != 0 <==> (ecx / 0x1000_0000) % 2 == 1) by (bit_vector);
    assert((edx & (1u32 << 25u32)) != 0 <==> (edx / 0x200_0000) % 2 == 1) by (bit_vector);
}

} // verus!
