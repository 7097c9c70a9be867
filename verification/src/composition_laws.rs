//! Laws of transforms that are combined from several functions of a style.
use crate::ring::{
    lemma_negated, lemma_one_times, lemma_times_zero, lemma_zero_plus, Ring,
};
use crate::scalar::Scalar;
use crate::style::{StyleTransform, StyleTransformOrigin};
use crate::transform::{lemma_matrix_equal, ComputedTransform3D, CpuFeatures, RotationMode};
use crate::transform_laws::{
    dot4, law_followed_by_is_associative, law_identity_is_neutral, law_inverse_undoes,
    law_then_sse_is_followed_by, lemma_dot4_unit, lemma_followed_by_at,
};
use vstd::prelude::*;

verus! {

/// All processors combine two transforms to the same one, where scalars are exact. Of
/// a scalar that rounds this does not hold: the vector instructions round in another
/// order.
pub proof fn law_product_on_any_cpu<S: Ring>(
    a: ComputedTransform3D<S>,
    b: ComputedTransform3D<S>,
    cpu: CpuFeatures,
)
    ensures
        a.spec_then_on(b, cpu) == a.spec_followed_by(b),
{
    law_then_sse_is_followed_by(a, b);
}

/// All processors compute the same matrix from the functions of a style, where scalars
/// are exact.
pub proof fn law_style_transform_on_any_cpu<S: Ring>(
    t_vec: Seq<StyleTransform<S>>,
    origin: StyleTransformOrigin<S>,
    percent_resolve_x: S,
    percent_resolve_y: S,
    rotation_mode: RotationMode,
    cpu: CpuFeatures,
    other_cpu: CpuFeatures,
)
    ensures
        ComputedTransform3D::spec_from_style_transform_vec(
            t_vec,
            origin,
            percent_resolve_x,
            percent_resolve_y,
            rotation_mode,
            cpu,
        ) == ComputedTransform3D::spec_from_style_transform_vec(
            t_vec,
            origin,
            percent_resolve_x,
            percent_resolve_y,
            rotation_mode,
            other_cpu,
        ),
    decreases t_vec.len(),
{
    if t_vec.len() > 0 {
        law_style_transform_on_any_cpu(
            t_vec.drop_last(),
            origin,
            percent_resolve_x,
            percent_resolve_y,
            rotation_mode,
            cpu,
            other_cpu,
        );
        let front = ComputedTransform3D::spec_from_style_transform_vec(
            t_vec.drop_last(),
            origin,
            percent_resolve_x,
            percent_resolve_y,
            rotation_mode,
            cpu,
        );
        let last = ComputedTransform3D::spec_from_style_transform(
            t_vec.last(),
            origin,
            percent_resolve_x,
            percent_resolve_y,
            rotation_mode,
        );
        law_product_on_any_cpu(front, last, cpu);
        law_product_on_any_cpu(front, last, other_cpu);
    }
}

/// No functions at all change nothing, and a single function gives its own matrix.
pub proof fn law_style_transform_of_few<S: Ring>(
    t: StyleTransform<S>,
    origin: StyleTransformOrigin<S>,
    percent_resolve_x: S,
    percent_resolve_y: S,
    rotation_mode: RotationMode,
    cpu: CpuFeatures,
)
    ensures
        ComputedTransform3D::spec_from_style_transform_vec(
            Seq::empty(),
            origin,
            percent_resolve_x,
            percent_resolve_y,
            rotation_mode,
            cpu,
        ) == ComputedTransform3D::<S>::spec_identity(),
        ComputedTransform3D::spec_from_style_transform_vec(
            seq![t],
            origin,
            percent_resolve_x,
            percent_resolve_y,
            rotation_mode,
            cpu,
        ) == ComputedTransform3D::spec_from_style_transform(
            t,
            origin,
            percent_resolve_x,
            percent_resolve_y,
            rotation_mode,
        ),
{
    let m = ComputedTransform3D::spec_from_style_transform(
        t,
        origin,
        percent_resolve_x,
        percent_resolve_y,
        rotation_mode,
    );
    assert(seq![t].drop_last() =~= Seq::<StyleTransform<S>>::empty());
    reveal_with_fuel(ComputedTransform3D::spec_from_style_transform_vec, 2);
    law_product_on_any_cpu(ComputedTransform3D::<S>::spec_identity(), m, cpu);
    law_identity_is_neutral(m);
}

/// The functions of a style may be grouped: the matrix of a list of functions is that
/// of its first part, followed by that of the rest.
pub proof fn law_style_transform_of_concatenation<S: Ring>(
    first: Seq<StyleTransform<S>>,
    rest: Seq<StyleTransform<S>>,
    origin: StyleTransformOrigin<S>,
    percent_resolve_x: S,
    percent_resolve_y: S,
    rotation_mode: RotationMode,
    cpu: CpuFeatures,
)
    ensures
        ComputedTransform3D::spec_from_style_transform_vec(
            first + rest,
            origin,
            percent_resolve_x,
            percent_resolve_y,
            rotation_mode,
            cpu,
        ) == ComputedTransform3D::spec_from_style_transform_vec(
            first,
            origin,
            percent_resolve_x,
            percent_resolve_y,
            rotation_mode,
            cpu,
        ).spec_followed_by(
            ComputedTransform3D::spec_from_style_transform_vec(
                rest,
                origin,
                percent_resolve_x,
                percent_resolve_y,
                rotation_mode,
                cpu,
            ),
        ),
    decreases rest.len(),
{
    let a = ComputedTransform3D::spec_from_style_transform_vec(
        first,
        origin,
        percent_resolve_x,
        percent_resolve_y,
        rotation_mode,
        cpu,
    );
    if rest.len() == 0 {
        assert(first + rest =~= first);
        law_identity_is_neutral(a);
    } else {
        let b = ComputedTransform3D::spec_from_style_transform_vec(
            rest.drop_last(),
            origin,
            percent_resolve_x,
            percent_resolve_y,
            rotation_mode,
            cpu,
        );
        let c = ComputedTransform3D::spec_from_style_transform(
            rest.last(),
            origin,
            percent_resolve_x,
            percent_resolve_y,
            rotation_mode,
        );
        assert((first + rest).drop_last() =~= first + rest.drop_last());
        assert((first + rest).last() == rest.last());
        law_style_transform_of_concatenation(
            first,
            rest.drop_last(),
            origin,
            percent_resolve_x,
            percent_resolve_y,
            rotation_mode,
            cpu,
        );
        law_product_on_any_cpu(a.spec_followed_by(b), c, cpu);
        law_product_on_any_cpu(b, c, cpu);
        law_followed_by_is_associative(a, b, c);
    }
}

proof fn lemma_dot4_offset<S: Ring>(x: S, y: S, z: S, b: S)
    ensures
        ({
            let zero = S::spec_zero();
            let one = S::spec_one();
            &&& dot4(x, y, z, one, one, zero, zero, b) == x.spec_plus(b)
            &&& dot4(x, y, z, one, zero, one, zero, b) == y.spec_plus(b)
            &&& dot4(x, y, z, one, zero, zero, one, b) == z.spec_plus(b)
            &&& dot4(x, y, z, one, zero, zero, zero, one) == one
        }),
{
    let zero = S::spec_zero();
    S::times_one(x);
    S::times_one(y);
    S::times_one(z);
    S::times_one(S::spec_one());
    lemma_times_zero(x);
    lemma_times_zero(y);
    lemma_times_zero(z);
    lemma_one_times(b);
    S::plus_zero(x);
    S::plus_zero(y);
    S::plus_zero(zero);
    lemma_zero_plus(y);
    lemma_zero_plus(z);
    lemma_zero_plus(S::spec_one());
}

/// Two translations in a row move by the sum of their offsets.
pub proof fn law_translations_add<S: Ring>(ax: S, ay: S, az: S, bx: S, by: S, bz: S)
    ensures
        ComputedTransform3D::spec_new_translation(ax, ay, az).spec_followed_by(
            ComputedTransform3D::spec_new_translation(bx, by, bz),
        ) == ComputedTransform3D::spec_new_translation(
            ax.spec_plus(bx),
            ay.spec_plus(by),
            az.spec_plus(bz),
        ),
{
    let a = ComputedTransform3D::spec_new_translation(ax, ay, az);
    let b = ComputedTransform3D::spec_new_translation(bx, by, bz);
    let c = ComputedTransform3D::spec_new_translation(
        ax.spec_plus(bx),
        ay.spec_plus(by),
        az.spec_plus(bz),
    );
    lemma_followed_by_at(a, b);
    assert forall|i: int, j: int| 0 <= i < 4 && 0 <= j < 4 implies a.spec_followed_by(b).at(i, j)
        == c.at(i, j) by {
        lemma_dot4_unit(
            b.at(0, j),
            b.at(1, j),
            b.at(2, j),
            b.at(3, j),
        );
        lemma_dot4_offset(ax, ay, az, b.at(3, j));
        assert(i == 0 || i == 1 || i == 2 || i == 3);
        assert(j == 0 || j == 1 || j == 2 || j == 3);
    }
    lemma_matrix_equal(a.spec_followed_by(b), c);
}

/// A product of four entries is 0 if one of the first three is.
proof fn lemma_product4_zero<S: Ring>(
    m: ComputedTransform3D<S>,
    c0: int,
    c1: int,
    c2: int,
    c3: int,
)
    requires
        m.at(0, c0) == S::spec_zero() || m.at(1, c1) == S::spec_zero() || m.at(2, c2)
            == S::spec_zero(),
    ensures
        m.product4(c0, c1, c2, c3) == S::spec_zero(),
{
    let ab = m.at(0, c0).spec_times(m.at(1, c1));
    lemma_times_zero(m.at(0, c0));
    lemma_times_zero(m.at(1, c1));
    lemma_times_zero(ab);
    lemma_times_zero(m.at(2, c2));
    lemma_times_zero(m.at(3, c3));
}

/// The determinant of a translation is 1.
proof fn lemma_determinant_of_translation<S: Ring>(x: S, y: S, z: S)
    ensures
        ComputedTransform3D::spec_new_translation(x, y, z).spec_determinant() == S::spec_one(),
{
    let m = ComputedTransform3D::spec_new_translation(x, y, z);
    lemma_product4_zero(m, 3, 2, 1, 0);
    lemma_product4_zero(m, 2, 3, 1, 0);
    lemma_product4_zero(m, 3, 1, 2, 0);
    lemma_product4_zero(m, 1, 3, 2, 0);
    lemma_product4_zero(m, 2, 1, 3, 0);
    lemma_product4_zero(m, 1, 2, 3, 0);
    lemma_product4_zero(m, 3, 2, 0, 1);
    lemma_product4_zero(m, 2, 3, 0, 1);
    lemma_product4_zero(m, 3, 0, 2, 1);
    lemma_product4_zero(m, 0, 3, 2, 1);
    lemma_product4_zero(m, 2, 0, 3, 1);
    lemma_product4_zero(m, 0, 2, 3, 1);
    lemma_product4_zero(m, 3, 1, 0, 2);
    lemma_product4_zero(m, 1, 3, 0, 2);
    lemma_product4_zero(m, 3, 0, 1, 2);
    lemma_product4_zero(m, 0, 3, 1, 2);
    lemma_product4_zero(m, 1, 0, 3, 2);
    lemma_product4_zero(m, 0, 1, 3, 2);
    lemma_product4_zero(m, 2, 1, 0, 3);
    lemma_product4_zero(m, 1, 2, 0, 3);
    lemma_product4_zero(m, 2, 0, 1, 3);
    lemma_product4_zero(m, 0, 2, 1, 3);
    lemma_product4_zero(m, 1, 0, 2, 3);
    let zero = S::spec_zero();
    S::times_one(S::spec_one());
    assert(m.product4(0, 1, 2, 3) == S::spec_one());
    lemma_negated(zero, zero);
    S::plus_zero(zero);
    lemma_zero_plus(S::spec_one());
}

/// The inverse of a translation moves back by the same offset.
pub proof fn law_inverse_of_translation<S: Ring>(x: S, y: S, z: S)
    ensures
        ComputedTransform3D::spec_new_translation(x, y, z).spec_inverse()
            == ComputedTransform3D::spec_new_translation(
            x.spec_negated(),
            y.spec_negated(),
            z.spec_negated(),
        ),
{
    let there = ComputedTransform3D::spec_new_translation(x, y, z);
    let back = ComputedTransform3D::spec_new_translation(
        x.spec_negated(),
        y.spec_negated(),
        z.spec_negated(),
    );
    let inverse = there.spec_inverse();
    lemma_determinant_of_translation(x, y, z);
    S::over_one(S::spec_one());
    S::times_one(S::spec_one());
    law_inverse_undoes(there);
    law_translations_add(x, y, z, x.spec_negated(), y.spec_negated(), z.spec_negated());
    S::plus_negated(x);
    S::plus_negated(y);
    S::plus_negated(z);
    law_followed_by_is_associative(inverse, there, back);
    law_identity_is_neutral(inverse);
    law_identity_is_neutral(back);
}

/// Turning for the renderer is turning for hit testing by the negated angle.
pub proof fn law_rotation_modes_mirror<S: Scalar>(
    rotation_origin: (S, S),
    degrees: S,
    axis_x: S,
    axis_y: S,
    axis_z: S,
)
    ensures
        ComputedTransform3D::spec_make_rotation(
            rotation_origin,
            degrees,
            axis_x,
            axis_y,
            axis_z,
            RotationMode::ForWebRender,
        ) == ComputedTransform3D::spec_make_rotation(
            rotation_origin,
            degrees.spec_negated(),
            axis_x,
            axis_y,
            axis_z,
            RotationMode::ForHitTesting,
        ),
{
}

} // verus!
