//! Laws of what the computed transforms do to points, over exact scalars.
use crate::geometry::LogicalPosition;
use crate::ring::{lemma_one_times, lemma_times_zero, lemma_zero_plus, Ring};
use crate::scalar::Scalar;
use crate::transform::{ComputedTransform3D, RotationMode};
use crate::transform_laws::{
    dot4, is_invertible, law_followed_by_is_associative, law_identity_is_neutral,
    law_inverse_undoes, lemma_followed_by_at,
};
use vstd::prelude::*;

verus! {

/// `x * a + (y * b + c)`.
pub open spec fn weighted<S: Scalar>(x: S, y: S, a: S, b: S, c: S) -> S {
    x.spec_times(a).spec_plus(y.spec_times(b).spec_plus(c))
}

proof fn lemma_weighted<S: Ring>(x: S, y: S, c: S)
    ensures
        weighted(x, y, S::spec_one(), S::spec_zero(), c) == x.spec_plus(c),
        weighted(x, y, S::spec_zero(), S::spec_one(), c) == y.spec_plus(c),
        weighted(x, y, S::spec_zero(), S::spec_zero(), c) == c,
{
    S::times_one(x);
    S::times_one(y);
    lemma_times_zero(x);
    lemma_times_zero(y);
    lemma_zero_plus(c);
    lemma_zero_plus(y.spec_plus(c));
}

proof fn lemma_weighted_zero<S: Ring>(a: S, b: S, c: S)
    ensures
        weighted(S::spec_zero(), S::spec_zero(), a, b, c) == c,
{
    lemma_times_zero(a);
    lemma_times_zero(b);
    lemma_zero_plus(c);
}

/// Coordinate `j` of the image of the point (x, y, 0) with weight 1: x, y and z for
/// `j` from 0 to 2, and the weight for 3.
pub open spec fn image<S: Scalar>(m: ComputedTransform3D<S>, p: LogicalPosition<S>, j: int) -> S {
    weighted(p.x, p.y, m.at(0, j), m.at(1, j), m.at(3, j))
}

/// Whether a transform moves a point within the plane, without any perspective.
pub open spec fn stays_in_plane<S: Scalar>(
    m: ComputedTransform3D<S>,
    p: LogicalPosition<S>,
) -> bool {
    image(m, p, 2) == S::spec_zero() && image(m, p, 3) == S::spec_one()
}

/// Whether where a transform takes a point does not depend on the depth of the point.
pub open spec fn ignores_depth<S: Scalar>(m: ComputedTransform3D<S>) -> bool {
    m.at(2, 0) == S::spec_zero() && m.at(2, 1) == S::spec_zero() && m.at(2, 3) == S::spec_zero()
}

/// Whether the image of a point under `a` is all that `b` needs to know: `a` does not
/// put the point into perspective, and the depth that `a` gives it, which the image
/// lacks, is 0 or makes no difference to `b`.
pub open spec fn passes_on<S: Scalar>(
    a: ComputedTransform3D<S>,
    b: ComputedTransform3D<S>,
    p: LogicalPosition<S>,
) -> bool {
    image(a, p, 3) == S::spec_one() && (image(a, p, 2) == S::spec_zero() || ignores_depth(b))
}

proof fn lemma_image<S: Ring>(m: ComputedTransform3D<S>, p: LogicalPosition<S>, j: int)
    ensures
        p.x.spec_mul_add(m.at(0, j), p.y.spec_mul_add(m.at(1, j), m.at(3, j))) == image(m, p, j),
{
    let c = p.y.spec_times(m.at(1, j)).spec_plus(m.at(3, j));
    S::mul_add_is_exact(p.y, m.at(1, j), m.at(3, j));
    S::mul_add_is_exact(p.x, m.at(0, j), c);
}

/// A point is transformed to its image, divided by the weight, if the weight is not
/// negative.
proof fn lemma_transform_point2d<S: Ring>(m: ComputedTransform3D<S>, p: LogicalPosition<S>)
    ensures
        m.spec_transform_point2d(p) == if image(m, p, 3).spec_is_sign_positive() {
            Some(
                LogicalPosition {
                    x: image(m, p, 0).spec_over(image(m, p, 3)),
                    y: image(m, p, 1).spec_over(image(m, p, 3)),
                },
            )
        } else {
            None
        },
{
    lemma_image(m, p, 0);
    lemma_image(m, p, 1);
    lemma_image(m, p, 3);
}

/// The point as the first row of a matrix.
spec fn as_row<S: Scalar>(p: LogicalPosition<S>) -> ComputedTransform3D<S> {
    let z = S::spec_zero();
    ComputedTransform3D::spec_new(p.x, p.y, z, S::spec_one(), z, z, z, z, z, z, z, z, z, z, z, z)
}

proof fn lemma_dot4_point<S: Ring>(x: S, y: S, b0: S, b1: S, b2: S, b3: S)
    ensures
        dot4(x, y, S::spec_zero(), S::spec_one(), b0, b1, b2, b3) == weighted(x, y, b0, b1, b3),
{
    let t = x.spec_times(b0).spec_plus(y.spec_times(b1));
    lemma_times_zero(b2);
    lemma_one_times(b3);
    S::plus_zero(t);
    S::plus_associates(x.spec_times(b0), y.spec_times(b1), b3);
}

proof fn lemma_dot4_depth<S: Ring>(x: S, y: S, z: S, b0: S, b1: S, b3: S)
    ensures
        dot4(x, y, z, S::spec_one(), b0, b1, S::spec_zero(), b3) == weighted(x, y, b0, b1, b3),
{
    let t = x.spec_times(b0).spec_plus(y.spec_times(b1));
    lemma_times_zero(z);
    lemma_one_times(b3);
    S::plus_zero(t);
    S::plus_associates(x.spec_times(b0), y.spec_times(b1), b3);
}

proof fn lemma_as_row<S: Ring>(m: ComputedTransform3D<S>, p: LogicalPosition<S>, j: int)
    requires
        0 <= j < 4,
    ensures
        as_row(p).spec_followed_by(m).at(0, j) == image(m, p, j),
{
    lemma_followed_by_at(as_row(p), m);
    lemma_dot4_point(p.x, p.y, m.at(0, j), m.at(1, j), m.at(2, j), m.at(3, j));
}

/// The image under a combination, from the image under its first part.
proof fn lemma_image_of_product<S: Ring>(
    a: ComputedTransform3D<S>,
    b: ComputedTransform3D<S>,
    p: LogicalPosition<S>,
    j: int,
)
    requires
        0 <= j < 4,
    ensures
        image(a.spec_followed_by(b), p, j) == dot4(
            image(a, p, 0),
            image(a, p, 1),
            image(a, p, 2),
            image(a, p, 3),
            b.at(0, j),
            b.at(1, j),
            b.at(2, j),
            b.at(3, j),
        ),
{
    lemma_as_row(a.spec_followed_by(b), p, j);
    law_followed_by_is_associative(as_row(p), a, b);
    lemma_followed_by_at(as_row(p).spec_followed_by(a), b);
    lemma_as_row(a, p, 0);
    lemma_as_row(a, p, 1);
    lemma_as_row(a, p, 2);
    lemma_as_row(a, p, 3);
}

/// The identity leaves every point in place.
pub proof fn law_identity_keeps_points<S: Ring>(p: LogicalPosition<S>)
    ensures
        ComputedTransform3D::<S>::spec_identity().spec_transform_point2d(p) == Some(p),
{
    let e = ComputedTransform3D::<S>::spec_identity();
    lemma_transform_point2d(e, p);
    lemma_weighted(p.x, p.y, S::spec_zero());
    lemma_weighted(p.x, p.y, S::spec_one());
    S::plus_zero(p.x);
    S::plus_zero(p.y);
    S::over_one(p.x);
    S::over_one(p.y);
    S::one_is_positive();
}

/// A translation adds its offset to every point.
pub proof fn law_translation_moves_points<S: Ring>(x: S, y: S, z: S, p: LogicalPosition<S>)
    ensures
        ComputedTransform3D::spec_new_translation(x, y, z).spec_transform_point2d(p) == Some(
            LogicalPosition { x: p.x.spec_plus(x), y: p.y.spec_plus(y) },
        ),
{
    let t = ComputedTransform3D::spec_new_translation(x, y, z);
    lemma_transform_point2d(t, p);
    lemma_weighted(p.x, p.y, x);
    lemma_weighted(p.x, p.y, y);
    lemma_weighted(p.x, p.y, S::spec_one());
    S::over_one(p.x.spec_plus(x));
    S::over_one(p.y.spec_plus(y));
    S::one_is_positive();
}

/// Combining two transforms applies the second one AFTER the first one: the
/// combination takes a point to where the second transform takes its image under the
/// first one, wherever the first one passes on all that the second one needs.
pub proof fn law_followed_by_applies_after<S: Ring>(
    a: ComputedTransform3D<S>,
    b: ComputedTransform3D<S>,
    p: LogicalPosition<S>,
)
    requires
        passes_on(a, b, p),
    ensures
        a.spec_transform_point2d(p) is Some,
        a.spec_followed_by(b).spec_transform_point2d(p) == b.spec_transform_point2d(
            a.spec_transform_point2d(p).unwrap(),
        ),
{
    let c = a.spec_followed_by(b);
    let q = LogicalPosition { x: image(a, p, 0), y: image(a, p, 1) };
    lemma_transform_point2d(a, p);
    lemma_transform_point2d(c, p);
    S::over_one(q.x);
    S::over_one(q.y);
    S::one_is_positive();
    lemma_image_after(a, b, p, q, 0);
    lemma_image_after(a, b, p, q, 1);
    lemma_image_after(a, b, p, q, 3);
    lemma_transform_point2d(b, q);
}

/// After a transform of the plane, as every two-dimensional matrix is one, any other
/// transform is applied AFTER it, for every point.
pub proof fn law_followed_by_applies_after_plane<S: Ring>(
    m11: S,
    m12: S,
    m21: S,
    m22: S,
    m41: S,
    m42: S,
    b: ComputedTransform3D<S>,
    p: LogicalPosition<S>,
)
    ensures
        ({
            let a = ComputedTransform3D::spec_new_2d(m11, m12, m21, m22, m41, m42);
            &&& a.spec_transform_point2d(p) == Some(
                LogicalPosition {
                    x: weighted(p.x, p.y, m11, m21, m41),
                    y: weighted(p.x, p.y, m12, m22, m42),
                },
            )
            &&& a.spec_followed_by(b).spec_transform_point2d(p) == b.spec_transform_point2d(
                a.spec_transform_point2d(p).unwrap(),
            )
        }),
{
    let a = ComputedTransform3D::spec_new_2d(m11, m12, m21, m22, m41, m42);
    lemma_weighted(p.x, p.y, S::spec_zero());
    lemma_weighted(p.x, p.y, S::spec_one());
    lemma_transform_point2d(a, p);
    S::over_one(weighted(p.x, p.y, m11, m21, m41));
    S::over_one(weighted(p.x, p.y, m12, m22, m42));
    S::one_is_positive();
    law_followed_by_applies_after(a, b, p);
}

/// The inverse takes the image of a point back to the point, for a transform that has
/// an inverse.
pub proof fn law_inverse_takes_points_back<S: Ring>(
    m: ComputedTransform3D<S>,
    p: LogicalPosition<S>,
)
    requires
        is_invertible(m),
        passes_on(m, m.spec_inverse(), p),
    ensures
        m.spec_transform_point2d(p) is Some,
        m.spec_inverse().spec_transform_point2d(m.spec_transform_point2d(p).unwrap()) == Some(p),
{
    law_inverse_undoes(m);
    law_identity_keeps_points(p);
    law_followed_by_applies_after(m, m.spec_inverse(), p);
}

/// The image under a combination is the image of the image.
proof fn lemma_image_after<S: Ring>(
    a: ComputedTransform3D<S>,
    b: ComputedTransform3D<S>,
    p: LogicalPosition<S>,
    q: LogicalPosition<S>,
    j: int,
)
    requires
        j == 0 || j == 1 || j == 3,
        passes_on(a, b, p),
        q == (LogicalPosition { x: image(a, p, 0), y: image(a, p, 1) }),
    ensures
        image(a.spec_followed_by(b), p, j) == image(b, q, j),
{
    lemma_image_of_product(a, b, p, j);
    lemma_dot4_point(q.x, q.y, b.at(0, j), b.at(1, j), b.at(2, j), b.at(3, j));
    lemma_dot4_depth(q.x, q.y, image(a, p, 2), b.at(0, j), b.at(1, j), b.at(3, j));
}

/// A translation by the negated point moves the point to (0, 0).
proof fn lemma_translation_to_zero<S: Ring>(p: LogicalPosition<S>)
    ensures
        ({
            let t = ComputedTransform3D::spec_new_translation(
                p.x.spec_negated(),
                p.y.spec_negated(),
                S::spec_zero().spec_negated(),
            );
            &&& stays_in_plane(t, p)
            &&& t.spec_transform_point2d(p) == Some(LogicalPosition::<S>::spec_zero())
        }),
{
    let zero = S::spec_zero();
    law_translation_moves_points(p.x.spec_negated(), p.y.spec_negated(), zero.spec_negated(), p);
    S::plus_negated(p.x);
    S::plus_negated(p.y);
    S::plus_negated(zero);
    lemma_zero_plus(zero.spec_negated());
    lemma_weighted(p.x, p.y, zero);
    lemma_weighted(p.x, p.y, S::spec_one());
}

/// A matrix whose last row is that of the identity leaves (0, 0) in place.
proof fn lemma_linear_keeps_zero<S: Ring>(m: ComputedTransform3D<S>)
    requires
        m.at(3, 0) == S::spec_zero(),
        m.at(3, 1) == S::spec_zero(),
        m.at(3, 2) == S::spec_zero(),
        m.at(3, 3) == S::spec_one(),
    ensures
        stays_in_plane(m, LogicalPosition::<S>::spec_zero()),
        m.spec_transform_point2d(LogicalPosition::<S>::spec_zero()) == Some(
            LogicalPosition::<S>::spec_zero(),
        ),
{
    let zero = LogicalPosition::<S>::spec_zero();
    lemma_transform_point2d(m, zero);
    lemma_weighted_zero(m.at(0, 0), m.at(1, 0), S::spec_zero());
    lemma_weighted_zero(m.at(0, 1), m.at(1, 1), S::spec_zero());
    lemma_weighted_zero(m.at(0, 2), m.at(1, 2), S::spec_zero());
    lemma_weighted_zero(m.at(0, 3), m.at(1, 3), S::spec_one());
    S::over_one(S::spec_zero());
    S::one_is_positive();
}

/// Moving to (0, 0), applying what leaves (0, 0) in place, and moving back.
proof fn lemma_about_origin<S: Ring>(turn: ComputedTransform3D<S>, origin: LogicalPosition<S>)
    requires
        turn.at(3, 0) == S::spec_zero(),
        turn.at(3, 1) == S::spec_zero(),
        turn.at(3, 2) == S::spec_zero(),
        turn.at(3, 3) == S::spec_one(),
    ensures
        ComputedTransform3D::spec_new_translation(
            origin.x.spec_negated(),
            origin.y.spec_negated(),
            S::spec_zero().spec_negated(),
        ).spec_followed_by(turn).spec_followed_by(
            ComputedTransform3D::spec_new_translation(origin.x, origin.y, S::spec_zero()),
        ).spec_transform_point2d(origin) == Some(origin),
{
    let zero = LogicalPosition::<S>::spec_zero();
    let pre = ComputedTransform3D::spec_new_translation(
        origin.x.spec_negated(),
        origin.y.spec_negated(),
        S::spec_zero().spec_negated(),
    );
    let post = ComputedTransform3D::spec_new_translation(origin.x, origin.y, S::spec_zero());
    law_followed_by_is_associative(pre, turn, post);
    lemma_translation_to_zero(origin);
    law_followed_by_applies_after(pre, turn.spec_followed_by(post), origin);
    lemma_linear_keeps_zero(turn);
    law_followed_by_applies_after(turn, post, zero);
    law_translation_moves_points(origin.x, origin.y, S::spec_zero(), zero);
    lemma_zero_plus(origin.x);
    lemma_zero_plus(origin.y);
}

/// A rotation leaves the point that it turns about in place, whatever its axis, angle
/// and mode.
pub proof fn law_rotation_keeps_its_origin<S: Ring>(
    origin: LogicalPosition<S>,
    degrees: S,
    axis_x: S,
    axis_y: S,
    axis_z: S,
    rotation_mode: RotationMode,
)
    ensures
        ComputedTransform3D::spec_make_rotation(
            (origin.x, origin.y),
            degrees,
            axis_x,
            axis_y,
            axis_z,
            rotation_mode,
        ).spec_transform_point2d(origin) == Some(origin),
{
    let turn = ComputedTransform3D::spec_new_rotation(
        axis_x,
        axis_y,
        axis_z,
        ComputedTransform3D::spec_theta(degrees, rotation_mode),
    );
    law_identity_is_neutral(turn);
    lemma_about_origin(turn, origin);
}

} // verus!
