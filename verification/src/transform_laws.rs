//! Laws of the computed transforms over exact scalars.
use crate::formal_sum::{group_formal_sum, lemma_flip, lemma_same, FormalSum};
use crate::ring::{
    lemma_distributes, lemma_negated, lemma_one_times, lemma_regroups, lemma_times_negated,
    lemma_times_zero, lemma_zero_plus, Field, Ring,
};
use crate::scalar::Scalar;
use crate::transform::{
    lemma_matrix_equal, lemma_tabulate_at, other_index, ComputedTransform3D,
};
use vstd::prelude::*;

verus! {

/// `t0 + t1 + t2 + t3`.
pub open spec fn sum4<S: Scalar>(t0: S, t1: S, t2: S, t3: S) -> S {
    t0.spec_plus(t1).spec_plus(t2).spec_plus(t3)
}

/// `a0 * b0 + a1 * b1 + a2 * b2 + a3 * b3`.
pub open spec fn dot4<S: Scalar>(a0: S, a1: S, a2: S, a3: S, b0: S, b1: S, b2: S, b3: S) -> S {
    sum4(a0.spec_times(b0), a1.spec_times(b1), a2.spec_times(b2), a3.spec_times(b3))
}

/// Row `i` of `a` applied to column `j` of `b`.
pub open spec fn dot<S: Scalar>(
    a: ComputedTransform3D<S>,
    b: ComputedTransform3D<S>,
    i: int,
    j: int,
) -> S {
    dot4(
        a.at(i, 0),
        a.at(i, 1),
        a.at(i, 2),
        a.at(i, 3),
        b.at(0, j),
        b.at(1, j),
        b.at(2, j),
        b.at(3, j),
    )
}

/// An entry of a product is the dot product.
proof fn lemma_product_entry<S: Ring>(
    a: ComputedTransform3D<S>,
    b: ComputedTransform3D<S>,
    i: int,
    j: int,
)
    ensures
        a.product_entry(b, i, j) == dot(a, b, i, j),
{
    let t0 = a.at(i, 0).spec_times(b.at(0, j));
    let t1 = a.at(i, 1).spec_times(b.at(1, j));
    let t2 = a.at(i, 2).spec_times(b.at(2, j));
    let t3 = a.at(i, 3).spec_times(b.at(3, j));
    S::mul_add_is_exact(a.at(i, 2), b.at(2, j), t3);
    S::mul_add_is_exact(a.at(i, 1), b.at(1, j), t2.spec_plus(t3));
    S::mul_add_is_exact(a.at(i, 0), b.at(0, j), t1.spec_plus(t2.spec_plus(t3)));
    S::plus_associates(t1, t2, t3);
    S::plus_associates(t0, t1.spec_plus(t2), t3);
    S::plus_associates(t0, t1, t2);
}

/// The two ways of multiplying matrices agree.
pub proof fn law_then_sse_is_followed_by<S: Ring>(
    a: ComputedTransform3D<S>,
    b: ComputedTransform3D<S>,
)
    ensures
        a.spec_then_sse(b) == a.spec_followed_by(b),
{
    lemma_tabulate_at(|i: int, j: int| a.product_entry(b, i, j));
    lemma_tabulate_at(|i: int, j: int| ComputedTransform3D::combination(a.m[i]@, b, j));
    assert forall|i: int, j: int| 0 <= i < 4 && 0 <= j < 4 implies a.spec_then_sse(b).at(i, j)
        == a.spec_followed_by(b).at(i, j) by {
        lemma_product_entry(a, b, i, j);
        assert(a.spec_then_sse(b).at(i, j) == ComputedTransform3D::combination(a.m[i]@, b, j));
    }
    lemma_matrix_equal(a.spec_then_sse(b), a.spec_followed_by(b));
}

/// An entry of a product, as the dot product.
pub(crate) proof fn lemma_followed_by_at<S: Ring>(
    a: ComputedTransform3D<S>,
    b: ComputedTransform3D<S>,
)
    ensures
        forall|i: int, j: int|
            0 <= i < 4 && 0 <= j < 4 ==> #[trigger] a.spec_followed_by(b).at(i, j) == dot(
                a,
                b,
                i,
                j,
            ),
{
    lemma_tabulate_at(|i: int, j: int| a.product_entry(b, i, j));
    assert forall|i: int, j: int| 0 <= i < 4 && 0 <= j < 4 implies #[trigger] a.spec_followed_by(
        b,
    ).at(i, j) == dot(a, b, i, j) by {
        lemma_product_entry(a, b, i, j);
    }
}

/// A row or a column of the identity picks one number.
pub(crate) proof fn lemma_dot4_unit<S: Ring>(b0: S, b1: S, b2: S, b3: S)
    ensures
        ({
            let z = S::spec_zero();
            let o = S::spec_one();
            &&& dot4(o, z, z, z, b0, b1, b2, b3) == b0
            &&& dot4(z, o, z, z, b0, b1, b2, b3) == b1
            &&& dot4(z, z, o, z, b0, b1, b2, b3) == b2
            &&& dot4(z, z, z, o, b0, b1, b2, b3) == b3
            &&& dot4(b0, b1, b2, b3, o, z, z, z) == b0
            &&& dot4(b0, b1, b2, b3, z, o, z, z) == b1
            &&& dot4(b0, b1, b2, b3, z, z, o, z) == b2
            &&& dot4(b0, b1, b2, b3, z, z, z, o) == b3
        }),
{
    let z = S::spec_zero();
    lemma_times_zero(b0);
    lemma_times_zero(b1);
    lemma_times_zero(b2);
    lemma_times_zero(b3);
    lemma_one_times(b0);
    lemma_one_times(b1);
    lemma_one_times(b2);
    lemma_one_times(b3);
    S::times_one(b0);
    S::times_one(b1);
    S::times_one(b2);
    S::times_one(b3);
    S::plus_zero(z);
    S::plus_zero(b0);
    S::plus_zero(b1);
    S::plus_zero(b2);
    lemma_zero_plus(b1);
    lemma_zero_plus(b2);
    lemma_zero_plus(b3);
}

/// The identity changes nothing, on either side.
pub proof fn law_identity_is_neutral<S: Ring>(a: ComputedTransform3D<S>)
    ensures
        ComputedTransform3D::<S>::spec_identity().spec_followed_by(a) == a,
        a.spec_followed_by(ComputedTransform3D::<S>::spec_identity()) == a,
{
    let e = ComputedTransform3D::<S>::spec_identity();
    lemma_followed_by_at(e, a);
    lemma_followed_by_at(a, e);
    assert forall|i: int, j: int| 0 <= i < 4 && 0 <= j < 4 implies e.spec_followed_by(a).at(i, j)
        == a.at(i, j) && a.spec_followed_by(e).at(i, j) == a.at(i, j) by {
        lemma_dot4_unit(a.at(0, j), a.at(1, j), a.at(2, j), a.at(3, j));
        lemma_dot4_unit(a.at(i, 0), a.at(i, 1), a.at(i, 2), a.at(i, 3));
        assert(dot(e, a, i, j) == a.at(i, j)) by {
            if i == 0 {
            } else if i == 1 {
            } else if i == 2 {
            } else {
            }
        }
        assert(dot(a, e, i, j) == a.at(i, j)) by {
            if j == 0 {
            } else if j == 1 {
            } else if j == 2 {
            } else {
            }
        }
    }
    lemma_matrix_equal(e.spec_followed_by(a), a);
    lemma_matrix_equal(a.spec_followed_by(e), a);
}

proof fn lemma_plus_sum4<S: Ring>(x: S, t0: S, t1: S, t2: S, t3: S)
    ensures
        x.spec_plus(sum4(t0, t1, t2, t3)) == x.spec_plus(t0).spec_plus(t1).spec_plus(t2).spec_plus(
            t3,
        ),
{
    S::plus_associates(x, t0.spec_plus(t1).spec_plus(t2), t3);
    S::plus_associates(x, t0.spec_plus(t1), t2);
    S::plus_associates(x, t0, t1);
}

/// Adding up a table by rows or by columns gives the same.
proof fn lemma_sum_of_table<S: Ring>(t: Seq<Seq<S>>)
    ensures
        sum4(
            sum4(t[0][0], t[0][1], t[0][2], t[0][3]),
            sum4(t[1][0], t[1][1], t[1][2], t[1][3]),
            sum4(t[2][0], t[2][1], t[2][2], t[2][3]),
            sum4(t[3][0], t[3][1], t[3][2], t[3][3]),
        ) == sum4(
            sum4(t[0][0], t[1][0], t[2][0], t[3][0]),
            sum4(t[0][1], t[1][1], t[2][1], t[3][1]),
            sum4(t[0][2], t[1][2], t[2][2], t[3][2]),
            sum4(t[0][3], t[1][3], t[2][3], t[3][3]),
        ),
{
    broadcast use group_formal_sum;

    let r0 = sum4(t[0][0], t[0][1], t[0][2], t[0][3]);
    let r1 = sum4(t[1][0], t[1][1], t[1][2], t[1][3]);
    let r2 = sum4(t[2][0], t[2][1], t[2][2], t[2][3]);
    lemma_plus_sum4(r0, t[1][0], t[1][1], t[1][2], t[1][3]);
    lemma_plus_sum4(r0.spec_plus(r1), t[2][0], t[2][1], t[2][2], t[2][3]);
    lemma_plus_sum4(r0.spec_plus(r1).spec_plus(r2), t[3][0], t[3][1], t[3][2], t[3][3]);
    let c0 = sum4(t[0][0], t[1][0], t[2][0], t[3][0]);
    let c1 = sum4(t[0][1], t[1][1], t[2][1], t[3][1]);
    let c2 = sum4(t[0][2], t[1][2], t[2][2], t[3][2]);
    lemma_plus_sum4(c0, t[0][1], t[1][1], t[2][1], t[3][1]);
    lemma_plus_sum4(c0.spec_plus(c1), t[0][2], t[1][2], t[2][2], t[3][2]);
    lemma_plus_sum4(c0.spec_plus(c1).spec_plus(c2), t[0][3], t[1][3], t[2][3], t[3][3]);
    let n = FormalSum::<S>::none();
    let x = n.and(t[0][0]).and(t[0][1]).and(t[0][2]).and(t[0][3])
        .and(t[1][0]).and(t[1][1]).and(t[1][2]).and(t[1][3])
        .and(t[2][0]).and(t[2][1]).and(t[2][2]).and(t[2][3])
        .and(t[3][0]).and(t[3][1]).and(t[3][2]).and(t[3][3]);
    let y = n.and(t[0][0]).and(t[1][0]).and(t[2][0]).and(t[3][0])
        .and(t[0][1]).and(t[1][1]).and(t[2][1]).and(t[3][1])
        .and(t[0][2]).and(t[1][2]).and(t[2][2]).and(t[3][2])
        .and(t[0][3]).and(t[1][3]).and(t[2][3]).and(t[3][3]);
    lemma_zero_plus(t[0][0]);
    assert(x.added.add(y.subtracted) =~= y.added.add(x.subtracted));
    lemma_same(x, y);
}

proof fn lemma_sum4_times<S: Ring>(t0: S, t1: S, t2: S, t3: S, c: S)
    ensures
        sum4(t0, t1, t2, t3).spec_times(c) == sum4(
            t0.spec_times(c),
            t1.spec_times(c),
            t2.spec_times(c),
            t3.spec_times(c),
        ),
        c.spec_times(sum4(t0, t1, t2, t3)) == sum4(
            c.spec_times(t0),
            c.spec_times(t1),
            c.spec_times(t2),
            c.spec_times(t3),
        ),
{
    lemma_distributes(t0.spec_plus(t1).spec_plus(t2), t3, c);
    lemma_distributes(t0.spec_plus(t1), t2, c);
    lemma_distributes(t0, t1, c);
}

/// Three transforms in a row may be combined in either order.
pub proof fn law_followed_by_is_associative<S: Ring>(
    a: ComputedTransform3D<S>,
    b: ComputedTransform3D<S>,
    c: ComputedTransform3D<S>,
)
    ensures
        a.spec_followed_by(b).spec_followed_by(c) == a.spec_followed_by(b.spec_followed_by(c)),
{
    let ab = a.spec_followed_by(b);
    let bc = b.spec_followed_by(c);
    lemma_followed_by_at(a, b);
    lemma_followed_by_at(b, c);
    lemma_followed_by_at(ab, c);
    lemma_followed_by_at(a, bc);
    assert forall|i: int, j: int| 0 <= i < 4 && 0 <= j < 4 implies ab.spec_followed_by(c).at(i, j)
        == a.spec_followed_by(bc).at(i, j) by {
        lemma_dot_associates(a, b, c, i, j);
    }
    lemma_matrix_equal(ab.spec_followed_by(c), a.spec_followed_by(bc));
}

proof fn lemma_dot_associates<S: Ring>(
    a: ComputedTransform3D<S>,
    b: ComputedTransform3D<S>,
    c: ComputedTransform3D<S>,
    i: int,
    j: int,
)
    ensures
        dot4(
            dot(a, b, i, 0),
            dot(a, b, i, 1),
            dot(a, b, i, 2),
            dot(a, b, i, 3),
            c.at(0, j),
            c.at(1, j),
            c.at(2, j),
            c.at(3, j),
        ) == dot4(
            a.at(i, 0),
            a.at(i, 1),
            a.at(i, 2),
            a.at(i, 3),
            dot(b, c, 0, j),
            dot(b, c, 1, j),
            dot(b, c, 2, j),
            dot(b, c, 3, j),
        ),
{
    let t = Seq::new(
        4,
        |l: int|
            Seq::new(4, |k: int| a.at(i, l).spec_times(b.at(l, k)).spec_times(c.at(k, j))),
    );
    lemma_sum_of_table(t);
    lemma_dot_column(a, b, c, i, j, 0);
    lemma_dot_column(a, b, c, i, j, 1);
    lemma_dot_column(a, b, c, i, j, 2);
    lemma_dot_column(a, b, c, i, j, 3);
    lemma_dot_row(a, b, c, i, j, 0);
    lemma_dot_row(a, b, c, i, j, 1);
    lemma_dot_row(a, b, c, i, j, 2);
    lemma_dot_row(a, b, c, i, j, 3);
}

proof fn lemma_dot_column<S: Ring>(
    a: ComputedTransform3D<S>,
    b: ComputedTransform3D<S>,
    c: ComputedTransform3D<S>,
    i: int,
    j: int,
    k: int,
)
    ensures
        dot(a, b, i, k).spec_times(c.at(k, j)) == sum4(
            a.at(i, 0).spec_times(b.at(0, k)).spec_times(c.at(k, j)),
            a.at(i, 1).spec_times(b.at(1, k)).spec_times(c.at(k, j)),
            a.at(i, 2).spec_times(b.at(2, k)).spec_times(c.at(k, j)),
            a.at(i, 3).spec_times(b.at(3, k)).spec_times(c.at(k, j)),
        ),
{
    lemma_sum4_times(
        a.at(i, 0).spec_times(b.at(0, k)),
        a.at(i, 1).spec_times(b.at(1, k)),
        a.at(i, 2).spec_times(b.at(2, k)),
        a.at(i, 3).spec_times(b.at(3, k)),
        c.at(k, j),
    );
}

proof fn lemma_dot_row<S: Ring>(
    a: ComputedTransform3D<S>,
    b: ComputedTransform3D<S>,
    c: ComputedTransform3D<S>,
    i: int,
    j: int,
    l: int,
)
    ensures
        a.at(i, l).spec_times(dot(b, c, l, j)) == sum4(
            a.at(i, l).spec_times(b.at(l, 0)).spec_times(c.at(0, j)),
            a.at(i, l).spec_times(b.at(l, 1)).spec_times(c.at(1, j)),
            a.at(i, l).spec_times(b.at(l, 2)).spec_times(c.at(2, j)),
            a.at(i, l).spec_times(b.at(l, 3)).spec_times(c.at(3, j)),
        ),
{
    let x = a.at(i, l);
    lemma_sum4_times(
        b.at(l, 0).spec_times(c.at(0, j)),
        b.at(l, 1).spec_times(c.at(1, j)),
        b.at(l, 2).spec_times(c.at(2, j)),
        b.at(l, 3).spec_times(c.at(3, j)),
        x,
    );
    S::times_associates(x, b.at(l, 0), c.at(0, j));
    S::times_associates(x, b.at(l, 1), c.at(1, j));
    S::times_associates(x, b.at(l, 2), c.at(2, j));
    S::times_associates(x, b.at(l, 3), c.at(3, j));
}

/// `a * b * c`.
pub open spec fn times3<S: Scalar>(a: S, b: S, c: S) -> S {
    a.spec_times(b).spec_times(c)
}

/// `a * b * c * d`.
pub open spec fn times4<S: Scalar>(a: S, b: S, c: S, d: S) -> S {
    a.spec_times(b).spec_times(c).spec_times(d)
}

/// `t0 - t1 - t2 + t3 + t4 - t5`.
pub open spec fn six<S: Scalar>(t0: S, t1: S, t2: S, t3: S, t4: S, t5: S) -> S {
    t0.spec_minus(t1).spec_minus(t2).spec_plus(t3).spec_plus(t4).spec_minus(t5)
}

/// The determinant of the columns `c0`, `c1`, `c2` of three rows.
#[verifier::opaque]
pub open spec fn minor<S: Scalar>(
    x: Seq<S>,
    y: Seq<S>,
    z: Seq<S>,
    c0: int,
    c1: int,
    c2: int,
) -> S {
    six(
        times3(x[c0], y[c1], z[c2]),
        times3(x[c0], y[c2], z[c1]),
        times3(x[c1], y[c0], z[c2]),
        times3(x[c1], y[c2], z[c0]),
        times3(x[c2], y[c0], z[c1]),
        times3(x[c2], y[c1], z[c0]),
    )
}

/// The expansion of a determinant along the row `v`, the others being `x`, `y`, `z`.
pub open spec fn expansion<S: Scalar>(v: Seq<S>, x: Seq<S>, y: Seq<S>, z: Seq<S>) -> S {
    v[0].spec_times(minor(x, y, z, 1, 2, 3)).spec_minus(
        v[1].spec_times(minor(x, y, z, 0, 2, 3)),
    ).spec_plus(v[2].spec_times(minor(x, y, z, 0, 1, 3))).spec_minus(
        v[3].spec_times(minor(x, y, z, 0, 1, 2)),
    )
}

/// The determinant of four rows.
#[verifier::opaque]
pub open spec fn det4<S: Scalar>(p: Seq<S>, q: Seq<S>, r: Seq<S>, s: Seq<S>) -> S {
    times4(p[3], q[2], r[1], s[0])
        .spec_minus(times4(p[2], q[3], r[1], s[0]))
        .spec_minus(times4(p[3], q[1], r[2], s[0]))
        .spec_plus(times4(p[1], q[3], r[2], s[0]))
        .spec_plus(times4(p[2], q[1], r[3], s[0]))
        .spec_minus(times4(p[1], q[2], r[3], s[0]))
        .spec_minus(times4(p[3], q[2], r[0], s[1]))
        .spec_plus(times4(p[2], q[3], r[0], s[1]))
        .spec_plus(times4(p[3], q[0], r[2], s[1]))
        .spec_minus(times4(p[0], q[3], r[2], s[1]))
        .spec_minus(times4(p[2], q[0], r[3], s[1]))
        .spec_plus(times4(p[0], q[2], r[3], s[1]))
        .spec_plus(times4(p[3], q[1], r[0], s[2]))
        .spec_minus(times4(p[1], q[3], r[0], s[2]))
        .spec_minus(times4(p[3], q[0], r[1], s[2]))
        .spec_plus(times4(p[0], q[3], r[1], s[2]))
        .spec_plus(times4(p[1], q[0], r[3], s[2]))
        .spec_minus(times4(p[0], q[1], r[3], s[2]))
        .spec_minus(times4(p[2], q[1], r[0], s[3]))
        .spec_plus(times4(p[1], q[2], r[0], s[3]))
        .spec_plus(times4(p[2], q[0], r[1], s[3]))
        .spec_minus(times4(p[0], q[2], r[1], s[3]))
        .spec_minus(times4(p[1], q[0], r[2], s[3]))
        .spec_plus(times4(p[0], q[1], r[2], s[3]))
}

proof fn lemma_regroups_six<S: Ring>(x: S, t0: S, t1: S, t2: S, t3: S, t4: S, t5: S)
    ensures
        x.spec_plus(six(t0, t1, t2, t3, t4, t5)) == x.spec_plus(t0).spec_minus(t1).spec_minus(
            t2,
        ).spec_plus(t3).spec_plus(t4).spec_minus(t5),
        x.spec_minus(six(t0, t1, t2, t3, t4, t5)) == x.spec_minus(t0).spec_plus(t1).spec_plus(
            t2,
        ).spec_minus(t3).spec_minus(t4).spec_plus(t5),
{
    let s1 = t0.spec_minus(t1);
    let s2 = s1.spec_minus(t2);
    let s3 = s2.spec_plus(t3);
    let s4 = s3.spec_plus(t4);
    lemma_regroups(x, s4, t5);
    lemma_regroups(x, s3, t4);
    lemma_regroups(x, s2, t3);
    lemma_regroups(x, s1, t2);
    lemma_regroups(x, t0, t1);
}

proof fn lemma_times_six<S: Ring>(v: S, t0: S, t1: S, t2: S, t3: S, t4: S, t5: S)
    ensures
        v.spec_times(six(t0, t1, t2, t3, t4, t5)) == six(
            v.spec_times(t0),
            v.spec_times(t1),
            v.spec_times(t2),
            v.spec_times(t3),
            v.spec_times(t4),
            v.spec_times(t5),
        ),
{
    let s1 = t0.spec_minus(t1);
    let s2 = s1.spec_minus(t2);
    let s3 = s2.spec_plus(t3);
    let s4 = s3.spec_plus(t4);
    lemma_distributes(s4, t5, v);
    lemma_distributes(s3, t4, v);
    lemma_distributes(s2, t3, v);
    lemma_distributes(s1, t2, v);
    lemma_distributes(t0, t1, v);
}

proof fn lemma_insert_factor<S: Ring>(v: S, x: S, y: S, z: S)
    ensures
        v.spec_times(times3(x, y, z)) == times4(v, x, y, z),
        v.spec_times(times3(x, y, z)) == times4(x, v, y, z),
        v.spec_times(times3(x, y, z)) == times4(x, y, v, z),
        v.spec_times(times3(x, y, z)) == times4(x, y, z, v),
{
    let xy = x.spec_times(y);
    S::times_associates(v, xy, z);
    S::times_associates(v, x, y);
    S::times_commutes(v, x);
    S::times_commutes(v, xy);
    S::times_commutes(v, xy.spec_times(z));
}

/// A multiple of a minor, term by term, with the factor in any place.
proof fn lemma_times_minor<S: Ring>(
    v: S,
    x: Seq<S>,
    y: Seq<S>,
    z: Seq<S>,
    c0: int,
    c1: int,
    c2: int,
)
    ensures
        v.spec_times(minor(x, y, z, c0, c1, c2)) == six(
            times4(v, x[c0], y[c1], z[c2]),
            times4(v, x[c0], y[c2], z[c1]),
            times4(v, x[c1], y[c0], z[c2]),
            times4(v, x[c1], y[c2], z[c0]),
            times4(v, x[c2], y[c0], z[c1]),
            times4(v, x[c2], y[c1], z[c0]),
        ),
        v.spec_times(minor(x, y, z, c0, c1, c2)) == six(
            times4(x[c0], v, y[c1], z[c2]),
            times4(x[c0], v, y[c2], z[c1]),
            times4(x[c1], v, y[c0], z[c2]),
            times4(x[c1], v, y[c2], z[c0]),
            times4(x[c2], v, y[c0], z[c1]),
            times4(x[c2], v, y[c1], z[c0]),
        ),
        v.spec_times(minor(x, y, z, c0, c1, c2)) == six(
            times4(x[c0], y[c1], v, z[c2]),
            times4(x[c0], y[c2], v, z[c1]),
            times4(x[c1], y[c0], v, z[c2]),
            times4(x[c1], y[c2], v, z[c0]),
            times4(x[c2], y[c0], v, z[c1]),
            times4(x[c2], y[c1], v, z[c0]),
        ),
        v.spec_times(minor(x, y, z, c0, c1, c2)) == six(
            times4(x[c0], y[c1], z[c2], v),
            times4(x[c0], y[c2], z[c1], v),
            times4(x[c1], y[c0], z[c2], v),
            times4(x[c1], y[c2], z[c0], v),
            times4(x[c2], y[c0], z[c1], v),
            times4(x[c2], y[c1], z[c0], v),
        ),
{
    reveal(minor);
    lemma_times_six(
        v,
        times3(x[c0], y[c1], z[c2]),
        times3(x[c0], y[c2], z[c1]),
        times3(x[c1], y[c0], z[c2]),
        times3(x[c1], y[c2], z[c0]),
        times3(x[c2], y[c0], z[c1]),
        times3(x[c2], y[c1], z[c0]),
    );
    lemma_insert_factor(v, x[c0], y[c1], z[c2]);
    lemma_insert_factor(v, x[c0], y[c2], z[c1]);
    lemma_insert_factor(v, x[c1], y[c0], z[c2]);
    lemma_insert_factor(v, x[c1], y[c2], z[c0]);
    lemma_insert_factor(v, x[c2], y[c0], z[c1]);
    lemma_insert_factor(v, x[c2], y[c1], z[c0]);
}

/// Expanding along the first row gives the determinant.
proof fn lemma_expansion_first<S: Ring>(p: Seq<S>, q: Seq<S>, r: Seq<S>, s: Seq<S>)
    ensures
        expansion(p, q, r, s) == det4(p, q, r, s),
{
    broadcast use group_formal_sum;

    reveal(det4);
    let t3210 = times4(p[3], q[2], r[1], s[0]);
    let t2310 = times4(p[2], q[3], r[1], s[0]);
    let t3120 = times4(p[3], q[1], r[2], s[0]);
    let t1320 = times4(p[1], q[3], r[2], s[0]);
    let t2130 = times4(p[2], q[1], r[3], s[0]);
    let t1230 = times4(p[1], q[2], r[3], s[0]);
    let t3201 = times4(p[3], q[2], r[0], s[1]);
    let t2301 = times4(p[2], q[3], r[0], s[1]);
    let t3021 = times4(p[3], q[0], r[2], s[1]);
    let t0321 = times4(p[0], q[3], r[2], s[1]);
    let t2031 = times4(p[2], q[0], r[3], s[1]);
    let t0231 = times4(p[0], q[2], r[3], s[1]);
    let t3102 = times4(p[3], q[1], r[0], s[2]);
    let t1302 = times4(p[1], q[3], r[0], s[2]);
    let t3012 = times4(p[3], q[0], r[1], s[2]);
    let t0312 = times4(p[0], q[3], r[1], s[2]);
    let t1032 = times4(p[1], q[0], r[3], s[2]);
    let t0132 = times4(p[0], q[1], r[3], s[2]);
    let t2103 = times4(p[2], q[1], r[0], s[3]);
    let t1203 = times4(p[1], q[2], r[0], s[3]);
    let t2013 = times4(p[2], q[0], r[1], s[3]);
    let t0213 = times4(p[0], q[2], r[1], s[3]);
    let t1023 = times4(p[1], q[0], r[2], s[3]);
    let t0123 = times4(p[0], q[1], r[2], s[3]);
    lemma_times_minor(p[0], q, r, s, 1, 2, 3);
    lemma_times_minor(p[1], q, r, s, 0, 2, 3);
    lemma_times_minor(p[2], q, r, s, 0, 1, 3);
    lemma_times_minor(p[3], q, r, s, 0, 1, 2);
    let e0 = six(t0123, t0132, t0213, t0231, t0312, t0321);
    let e1 = six(t1023, t1032, t1203, t1230, t1302, t1320);
    let e2 = six(t2013, t2031, t2103, t2130, t2301, t2310);
    lemma_regroups_six(e0, t1023, t1032, t1203, t1230, t1302, t1320);
    lemma_regroups_six(e0.spec_minus(e1), t2013, t2031, t2103, t2130, t2301, t2310);
    lemma_regroups_six(e0.spec_minus(e1).spec_plus(e2), t3012, t3021, t3102, t3120, t3201, t3210);
    let n = FormalSum::<S>::none();
    let x = n.and(t0123).less(t0132).less(t0213).and(t0231)
        .and(t0312).less(t0321).less(t1023).and(t1032)
        .and(t1203).less(t1230).less(t1302).and(t1320)
        .and(t2013).less(t2031).less(t2103).and(t2130)
        .and(t2301).less(t2310).less(t3012).and(t3021)
        .and(t3102).less(t3120).less(t3201).and(t3210);
    let y = n.and(t3210).less(t2310).less(t3120).and(t1320)
        .and(t2130).less(t1230).less(t3201).and(t2301)
        .and(t3021).less(t0321).less(t2031).and(t0231)
        .and(t3102).less(t1302).less(t3012).and(t0312)
        .and(t1032).less(t0132).less(t2103).and(t1203)
        .and(t2013).less(t0213).less(t1023).and(t0123);
    lemma_zero_plus(t0123);
    lemma_zero_plus(t3210);
    assert(x.value() == expansion(p, q, r, s));
    assert(y.value() == det4(p, q, r, s));
    assert(x.added =~= y.added);
    assert(x.subtracted =~= y.subtracted);
    lemma_same(x, y);
}

/// Expanding along the second row gives the determinant, up to the sign.
proof fn lemma_expansion_second<S: Ring>(p: Seq<S>, q: Seq<S>, r: Seq<S>, s: Seq<S>)
    ensures
        expansion(q, p, r, s) == det4(p, q, r, s).spec_negated(),
{
    broadcast use group_formal_sum;

    reveal(det4);
    let t3210 = times4(p[3], q[2], r[1], s[0]);
    let t2310 = times4(p[2], q[3], r[1], s[0]);
    let t3120 = times4(p[3], q[1], r[2], s[0]);
    let t1320 = times4(p[1], q[3], r[2], s[0]);
    let t2130 = times4(p[2], q[1], r[3], s[0]);
    let t1230 = times4(p[1], q[2], r[3], s[0]);
    let t3201 = times4(p[3], q[2], r[0], s[1]);
    let t2301 = times4(p[2], q[3], r[0], s[1]);
    let t3021 = times4(p[3], q[0], r[2], s[1]);
    let t0321 = times4(p[0], q[3], r[2], s[1]);
    let t2031 = times4(p[2], q[0], r[3], s[1]);
    let t0231 = times4(p[0], q[2], r[3], s[1]);
    let t3102 = times4(p[3], q[1], r[0], s[2]);
    let t1302 = times4(p[1], q[3], r[0], s[2]);
    let t3012 = times4(p[3], q[0], r[1], s[2]);
    let t0312 = times4(p[0], q[3], r[1], s[2]);
    let t1032 = times4(p[1], q[0], r[3], s[2]);
    let t0132 = times4(p[0], q[1], r[3], s[2]);
    let t2103 = times4(p[2], q[1], r[0], s[3]);
    let t1203 = times4(p[1], q[2], r[0], s[3]);
    let t2013 = times4(p[2], q[0], r[1], s[3]);
    let t0213 = times4(p[0], q[2], r[1], s[3]);
    let t1023 = times4(p[1], q[0], r[2], s[3]);
    let t0123 = times4(p[0], q[1], r[2], s[3]);
    lemma_times_minor(q[0], p, r, s, 1, 2, 3);
    lemma_times_minor(q[1], p, r, s, 0, 2, 3);
    lemma_times_minor(q[2], p, r, s, 0, 1, 3);
    lemma_times_minor(q[3], p, r, s, 0, 1, 2);
    let e0 = six(t1023, t1032, t2013, t2031, t3012, t3021);
    let e1 = six(t0123, t0132, t2103, t2130, t3102, t3120);
    let e2 = six(t0213, t0231, t1203, t1230, t3201, t3210);
    lemma_regroups_six(e0, t0123, t0132, t2103, t2130, t3102, t3120);
    lemma_regroups_six(e0.spec_minus(e1), t0213, t0231, t1203, t1230, t3201, t3210);
    lemma_regroups_six(e0.spec_minus(e1).spec_plus(e2), t0312, t0321, t1302, t1320, t2301, t2310);
    let n = FormalSum::<S>::none();
    let x = n.and(t1023).less(t1032).less(t2013).and(t2031)
        .and(t3012).less(t3021).less(t0123).and(t0132)
        .and(t2103).less(t2130).less(t3102).and(t3120)
        .and(t0213).less(t0231).less(t1203).and(t1230)
        .and(t3201).less(t3210).less(t0312).and(t0321)
        .and(t1302).less(t1320).less(t2301).and(t2310);
    let y = n.and(t3210).less(t2310).less(t3120).and(t1320)
        .and(t2130).less(t1230).less(t3201).and(t2301)
        .and(t3021).less(t0321).less(t2031).and(t0231)
        .and(t3102).less(t1302).less(t3012).and(t0312)
        .and(t1032).less(t0132).less(t2103).and(t1203)
        .and(t2013).less(t0213).less(t1023).and(t0123);
    lemma_zero_plus(t1023);
    lemma_zero_plus(t3210);
    assert(x.value() == expansion(q, p, r, s));
    assert(y.value() == det4(p, q, r, s));
    let f = y.flipped();
    assert(x.added =~= f.added);
    assert(x.subtracted =~= f.subtracted);
    lemma_flip(y);
    lemma_same(x, f);
}

/// Expanding along the third row gives the determinant.
proof fn lemma_expansion_third<S: Ring>(p: Seq<S>, q: Seq<S>, r: Seq<S>, s: Seq<S>)
    ensures
        expansion(r, p, q, s) == det4(p, q, r, s),
{
    broadcast use group_formal_sum;

    reveal(det4);
    let t3210 = times4(p[3], q[2], r[1], s[0]);
    let t2310 = times4(p[2], q[3], r[1], s[0]);
    let t3120 = times4(p[3], q[1], r[2], s[0]);
    let t1320 = times4(p[1], q[3], r[2], s[0]);
    let t2130 = times4(p[2], q[1], r[3], s[0]);
    let t1230 = times4(p[1], q[2], r[3], s[0]);
    let t3201 = times4(p[3], q[2], r[0], s[1]);
    let t2301 = times4(p[2], q[3], r[0], s[1]);
    let t3021 = times4(p[3], q[0], r[2], s[1]);
    let t0321 = times4(p[0], q[3], r[2], s[1]);
    let t2031 = times4(p[2], q[0], r[3], s[1]);
    let t0231 = times4(p[0], q[2], r[3], s[1]);
    let t3102 = times4(p[3], q[1], r[0], s[2]);
    let t1302 = times4(p[1], q[3], r[0], s[2]);
    let t3012 = times4(p[3], q[0], r[1], s[2]);
    let t0312 = times4(p[0], q[3], r[1], s[2]);
    let t1032 = times4(p[1], q[0], r[3], s[2]);
    let t0132 = times4(p[0], q[1], r[3], s[2]);
    let t2103 = times4(p[2], q[1], r[0], s[3]);
    let t1203 = times4(p[1], q[2], r[0], s[3]);
    let t2013 = times4(p[2], q[0], r[1], s[3]);
    let t0213 = times4(p[0], q[2], r[1], s[3]);
    let t1023 = times4(p[1], q[0], r[2], s[3]);
    let t0123 = times4(p[0], q[1], r[2], s[3]);
    lemma_times_minor(r[0], p, q, s, 1, 2, 3);
    lemma_times_minor(r[1], p, q, s, 0, 2, 3);
    lemma_times_minor(r[2], p, q, s, 0, 1, 3);
    lemma_times_minor(r[3], p, q, s, 0, 1, 2);
    let e0 = six(t1203, t1302, t2103, t2301, t3102, t3201);
    let e1 = six(t0213, t0312, t2013, t2310, t3012, t3210);
    let e2 = six(t0123, t0321, t1023, t1320, t3021, t3120);
    lemma_regroups_six(e0, t0213, t0312, t2013, t2310, t3012, t3210);
    lemma_regroups_six(e0.spec_minus(e1), t0123, t0321, t1023, t1320, t3021, t3120);
    lemma_regroups_six(e0.spec_minus(e1).spec_plus(e2), t0132, t0231, t1032, t1230, t2031, t2130);
    let n = FormalSum::<S>::none();
    let x = n.and(t1203).less(t1302).less(t2103).and(t2301)
        .and(t3102).less(t3201).less(t0213).and(t0312)
        .and(t2013).less(t2310).less(t3012).and(t3210)
        .and(t0123).less(t0321).less(t1023).and(t1320)
        .and(t3021).less(t3120).less(t0132).and(t0231)
        .and(t1032).less(t1230).less(t2031).and(t2130);
    let y = n.and(t3210).less(t2310).less(t3120).and(t1320)
        .and(t2130).less(t1230).less(t3201).and(t2301)
        .and(t3021).less(t0321).less(t2031).and(t0231)
        .and(t3102).less(t1302).less(t3012).and(t0312)
        .and(t1032).less(t0132).less(t2103).and(t1203)
        .and(t2013).less(t0213).less(t1023).and(t0123);
    lemma_zero_plus(t1203);
    lemma_zero_plus(t3210);
    assert(x.value() == expansion(r, p, q, s));
    assert(y.value() == det4(p, q, r, s));
    assert(x.added =~= y.added);
    assert(x.subtracted =~= y.subtracted);
    lemma_same(x, y);
}

/// Expanding along the fourth row gives the determinant, up to the sign.
pub(crate) proof fn lemma_expansion_fourth<S: Ring>(p: Seq<S>, q: Seq<S>, r: Seq<S>, s: Seq<S>)
    ensures
        expansion(s, p, q, r) == det4(p, q, r, s).spec_negated(),
{
    broadcast use group_formal_sum;

    reveal(det4);
    let t3210 = times4(p[3], q[2], r[1], s[0]);
    let t2310 = times4(p[2], q[3], r[1], s[0]);
    let t3120 = times4(p[3], q[1], r[2], s[0]);
    let t1320 = times4(p[1], q[3], r[2], s[0]);
    let t2130 = times4(p[2], q[1], r[3], s[0]);
    let t1230 = times4(p[1], q[2], r[3], s[0]);
    let t3201 = times4(p[3], q[2], r[0], s[1]);
    let t2301 = times4(p[2], q[3], r[0], s[1]);
    let t3021 = times4(p[3], q[0], r[2], s[1]);
    let t0321 = times4(p[0], q[3], r[2], s[1]);
    let t2031 = times4(p[2], q[0], r[3], s[1]);
    let t0231 = times4(p[0], q[2], r[3], s[1]);
    let t3102 = times4(p[3], q[1], r[0], s[2]);
    let t1302 = times4(p[1], q[3], r[0], s[2]);
    let t3012 = times4(p[3], q[0], r[1], s[2]);
    let t0312 = times4(p[0], q[3], r[1], s[2]);
    let t1032 = times4(p[1], q[0], r[3], s[2]);
    let t0132 = times4(p[0], q[1], r[3], s[2]);
    let t2103 = times4(p[2], q[1], r[0], s[3]);
    let t1203 = times4(p[1], q[2], r[0], s[3]);
    let t2013 = times4(p[2], q[0], r[1], s[3]);
    let t0213 = times4(p[0], q[2], r[1], s[3]);
    let t1023 = times4(p[1], q[0], r[2], s[3]);
    let t0123 = times4(p[0], q[1], r[2], s[3]);
    lemma_times_minor(s[0], p, q, r, 1, 2, 3);
    lemma_times_minor(s[1], p, q, r, 0, 2, 3);
    lemma_times_minor(s[2], p, q, r, 0, 1, 3);
    lemma_times_minor(s[3], p, q, r, 0, 1, 2);
    let e0 = six(t1230, t1320, t2130, t2310, t3120, t3210);
    let e1 = six(t0231, t0321, t2031, t2301, t3021, t3201);
    let e2 = six(t0132, t0312, t1032, t1302, t3012, t3102);
    lemma_regroups_six(e0, t0231, t0321, t2031, t2301, t3021, t3201);
    lemma_regroups_six(e0.spec_minus(e1), t0132, t0312, t1032, t1302, t3012, t3102);
    lemma_regroups_six(e0.spec_minus(e1).spec_plus(e2), t0123, t0213, t1023, t1203, t2013, t2103);
    let n = FormalSum::<S>::none();
    let x = n.and(t1230).less(t1320).less(t2130).and(t2310)
        .and(t3120).less(t3210).less(t0231).and(t0321)
        .and(t2031).less(t2301).less(t3021).and(t3201)
        .and(t0132).less(t0312).less(t1032).and(t1302)
        .and(t3012).less(t3102).less(t0123).and(t0213)
        .and(t1023).less(t1203).less(t2013).and(t2103);
    let y = n.and(t3210).less(t2310).less(t3120).and(t1320)
        .and(t2130).less(t1230).less(t3201).and(t2301)
        .and(t3021).less(t0321).less(t2031).and(t0231)
        .and(t3102).less(t1302).less(t3012).and(t0312)
        .and(t1032).less(t0132).less(t2103).and(t1203)
        .and(t2013).less(t0213).less(t1023).and(t0123);
    lemma_zero_plus(t1230);
    lemma_zero_plus(t3210);
    assert(x.value() == expansion(s, p, q, r));
    assert(y.value() == det4(p, q, r, s));
    let f = y.flipped();
    assert(x.added =~= f.added);
    assert(x.subtracted =~= f.subtracted);
    lemma_flip(y);
    lemma_same(x, f);
}

pub(crate) proof fn lemma_swap_last<S: Ring>(p: S, a: S, b: S)
    ensures
        p.spec_times(a).spec_times(b) == p.spec_times(b).spec_times(a),
{
    S::times_associates(p, a, b);
    S::times_associates(p, b, a);
    S::times_commutes(a, b);
}

/// Expanding along a row that occurs twice gives 0.
proof fn lemma_expansion_repeats_first<S: Ring>(x: Seq<S>, y: Seq<S>, z: Seq<S>)
    ensures
        expansion(x, x, y, z) == S::spec_zero(),
{
    broadcast use group_formal_sum;

    let t0123 = times4(x[0], x[1], y[2], z[3]);
    let t0132 = times4(x[0], x[1], y[3], z[2]);
    let t0213 = times4(x[0], x[2], y[1], z[3]);
    let t0231 = times4(x[0], x[2], y[3], z[1]);
    let t0312 = times4(x[0], x[3], y[1], z[2]);
    let t0321 = times4(x[0], x[3], y[2], z[1]);
    let t1023 = times4(x[1], x[0], y[2], z[3]);
    let t1032 = times4(x[1], x[0], y[3], z[2]);
    let t1203 = times4(x[1], x[2], y[0], z[3]);
    let t1230 = times4(x[1], x[2], y[3], z[0]);
    let t1302 = times4(x[1], x[3], y[0], z[2]);
    let t1320 = times4(x[1], x[3], y[2], z[0]);
    let t2013 = times4(x[2], x[0], y[1], z[3]);
    let t2031 = times4(x[2], x[0], y[3], z[1]);
    let t2103 = times4(x[2], x[1], y[0], z[3]);
    let t2130 = times4(x[2], x[1], y[3], z[0]);
    let t2301 = times4(x[2], x[3], y[0], z[1]);
    let t2310 = times4(x[2], x[3], y[1], z[0]);
    let t3012 = times4(x[3], x[0], y[1], z[2]);
    let t3021 = times4(x[3], x[0], y[2], z[1]);
    let t3102 = times4(x[3], x[1], y[0], z[2]);
    let t3120 = times4(x[3], x[1], y[2], z[0]);
    let t3201 = times4(x[3], x[2], y[0], z[1]);
    let t3210 = times4(x[3], x[2], y[1], z[0]);
    lemma_times_minor(x[0], x, y, z, 1, 2, 3);
    lemma_times_minor(x[1], x, y, z, 0, 2, 3);
    lemma_times_minor(x[2], x, y, z, 0, 1, 3);
    lemma_times_minor(x[3], x, y, z, 0, 1, 2);
    S::times_commutes(x[0], x[1]);
    S::times_commutes(x[0], x[1]);
    S::times_commutes(x[0], x[2]);
    S::times_commutes(x[0], x[2]);
    S::times_commutes(x[0], x[3]);
    S::times_commutes(x[0], x[3]);
    S::times_commutes(x[1], x[2]);
    S::times_commutes(x[1], x[2]);
    S::times_commutes(x[1], x[3]);
    S::times_commutes(x[1], x[3]);
    S::times_commutes(x[2], x[3]);
    S::times_commutes(x[2], x[3]);
    let e0 = six(t0123, t0132, t0213, t0231, t0312, t0321);
    let e1 = six(t1023, t1032, t1203, t1230, t1302, t1320);
    let e2 = six(t2013, t2031, t2103, t2130, t2301, t2310);
    lemma_regroups_six(e0, t1023, t1032, t1203, t1230, t1302, t1320);
    lemma_regroups_six(e0.spec_minus(e1), t2013, t2031, t2103, t2130, t2301, t2310);
    lemma_regroups_six(e0.spec_minus(e1).spec_plus(e2), t3012, t3021, t3102, t3120, t3201, t3210);
    let n = FormalSum::<S>::none();
    let sum = n.and(t0123).less(t0132).less(t0213).and(t0231)
        .and(t0312).less(t0321).less(t1023).and(t1032)
        .and(t1203).less(t1230).less(t1302).and(t1320)
        .and(t2013).less(t2031).less(t2103).and(t2130)
        .and(t2301).less(t2310).less(t3012).and(t3021)
        .and(t3102).less(t3120).less(t3201).and(t3210);
    lemma_zero_plus(t0123);
    assert(t0123 == t1023);
    assert(t0132 == t1032);
    assert(t0213 == t2013);
    assert(t0231 == t2031);
    assert(t0312 == t3012);
    assert(t0321 == t3021);
    assert(t1203 == t2103);
    assert(t1230 == t2130);
    assert(t1302 == t3102);
    assert(t1320 == t3120);
    assert(t2301 == t3201);
    assert(t2310 == t3210);
    assert(sum.value() == expansion(x, x, y, z));
    assert(sum.added =~= sum.subtracted);
    assert(sum.added.add(n.subtracted) =~= n.added.add(sum.subtracted));
    lemma_same(sum, n);
}

/// Expanding along a row that occurs twice gives 0.
proof fn lemma_expansion_repeats_second<S: Ring>(x: Seq<S>, y: Seq<S>, z: Seq<S>)
    ensures
        expansion(y, x, y, z) == S::spec_zero(),
{
    broadcast use group_formal_sum;

    let t1023 = times4(x[1], y[0], y[2], z[3]);
    let t1032 = times4(x[1], y[0], y[3], z[2]);
    let t2013 = times4(x[2], y[0], y[1], z[3]);
    let t2031 = times4(x[2], y[0], y[3], z[1]);
    let t3012 = times4(x[3], y[0], y[1], z[2]);
    let t3021 = times4(x[3], y[0], y[2], z[1]);
    let t0123 = times4(x[0], y[1], y[2], z[3]);
    let t0132 = times4(x[0], y[1], y[3], z[2]);
    let t2103 = times4(x[2], y[1], y[0], z[3]);
    let t2130 = times4(x[2], y[1], y[3], z[0]);
    let t3102 = times4(x[3], y[1], y[0], z[2]);
    let t3120 = times4(x[3], y[1], y[2], z[0]);
    let t0213 = times4(x[0], y[2], y[1], z[3]);
    let t0231 = times4(x[0], y[2], y[3], z[1]);
    let t1203 = times4(x[1], y[2], y[0], z[3]);
    let t1230 = times4(x[1], y[2], y[3], z[0]);
    let t3201 = times4(x[3], y[2], y[0], z[1]);
    let t3210 = times4(x[3], y[2], y[1], z[0]);
    let t0312 = times4(x[0], y[3], y[1], z[2]);
    let t0321 = times4(x[0], y[3], y[2], z[1]);
    let t1302 = times4(x[1], y[3], y[0], z[2]);
    let t1320 = times4(x[1], y[3], y[2], z[0]);
    let t2301 = times4(x[2], y[3], y[0], z[1]);
    let t2310 = times4(x[2], y[3], y[1], z[0]);
    lemma_times_minor(y[0], x, y, z, 1, 2, 3);
    lemma_times_minor(y[1], x, y, z, 0, 2, 3);
    lemma_times_minor(y[2], x, y, z, 0, 1, 3);
    lemma_times_minor(y[3], x, y, z, 0, 1, 2);
    lemma_swap_last(x[1], y[0], y[2]);
    lemma_swap_last(x[1], y[0], y[3]);
    lemma_swap_last(x[2], y[0], y[1]);
    lemma_swap_last(x[2], y[0], y[3]);
    lemma_swap_last(x[3], y[0], y[1]);
    lemma_swap_last(x[3], y[0], y[2]);
    lemma_swap_last(x[0], y[1], y[2]);
    lemma_swap_last(x[0], y[1], y[3]);
    lemma_swap_last(x[2], y[1], y[3]);
    lemma_swap_last(x[3], y[1], y[2]);
    lemma_swap_last(x[0], y[2], y[3]);
    lemma_swap_last(x[1], y[2], y[3]);
    let e0 = six(t1023, t1032, t2013, t2031, t3012, t3021);
    let e1 = six(t0123, t0132, t2103, t2130, t3102, t3120);
    let e2 = six(t0213, t0231, t1203, t1230, t3201, t3210);
    lemma_regroups_six(e0, t0123, t0132, t2103, t2130, t3102, t3120);
    lemma_regroups_six(e0.spec_minus(e1), t0213, t0231, t1203, t1230, t3201, t3210);
    lemma_regroups_six(e0.spec_minus(e1).spec_plus(e2), t0312, t0321, t1302, t1320, t2301, t2310);
    let n = FormalSum::<S>::none();
    let sum = n.and(t1023).less(t1032).less(t2013).and(t2031)
        .and(t3012).less(t3021).less(t0123).and(t0132)
        .and(t2103).less(t2130).less(t3102).and(t3120)
        .and(t0213).less(t0231).less(t1203).and(t1230)
        .and(t3201).less(t3210).less(t0312).and(t0321)
        .and(t1302).less(t1320).less(t2301).and(t2310);
    lemma_zero_plus(t1023);
    assert(t1023 == t1203);
    assert(t1032 == t1302);
    assert(t2013 == t2103);
    assert(t2031 == t2301);
    assert(t3012 == t3102);
    assert(t3021 == t3201);
    assert(t0123 == t0213);
    assert(t0132 == t0312);
    assert(t2130 == t2310);
    assert(t3120 == t3210);
    assert(t0231 == t0321);
    assert(t1230 == t1320);
    assert(sum.value() == expansion(y, x, y, z));
    assert(sum.added =~= sum.subtracted);
    assert(sum.added.add(n.subtracted) =~= n.added.add(sum.subtracted));
    lemma_same(sum, n);
}

/// Expanding along a row that occurs twice gives 0.
proof fn lemma_expansion_repeats_third<S: Ring>(x: Seq<S>, y: Seq<S>, z: Seq<S>)
    ensures
        expansion(z, x, y, z) == S::spec_zero(),
{
    broadcast use group_formal_sum;

    let t1203 = times4(x[1], y[2], z[0], z[3]);
    let t1302 = times4(x[1], y[3], z[0], z[2]);
    let t2103 = times4(x[2], y[1], z[0], z[3]);
    let t2301 = times4(x[2], y[3], z[0], z[1]);
    let t3102 = times4(x[3], y[1], z[0], z[2]);
    let t3201 = times4(x[3], y[2], z[0], z[1]);
    let t0213 = times4(x[0], y[2], z[1], z[3]);
    let t0312 = times4(x[0], y[3], z[1], z[2]);
    let t2013 = times4(x[2], y[0], z[1], z[3]);
    let t2310 = times4(x[2], y[3], z[1], z[0]);
    let t3012 = times4(x[3], y[0], z[1], z[2]);
    let t3210 = times4(x[3], y[2], z[1], z[0]);
    let t0123 = times4(x[0], y[1], z[2], z[3]);
    let t0321 = times4(x[0], y[3], z[2], z[1]);
    let t1023 = times4(x[1], y[0], z[2], z[3]);
    let t1320 = times4(x[1], y[3], z[2], z[0]);
    let t3021 = times4(x[3], y[0], z[2], z[1]);
    let t3120 = times4(x[3], y[1], z[2], z[0]);
    let t0132 = times4(x[0], y[1], z[3], z[2]);
    let t0231 = times4(x[0], y[2], z[3], z[1]);
    let t1032 = times4(x[1], y[0], z[3], z[2]);
    let t1230 = times4(x[1], y[2], z[3], z[0]);
    let t2031 = times4(x[2], y[0], z[3], z[1]);
    let t2130 = times4(x[2], y[1], z[3], z[0]);
    lemma_times_minor(z[0], x, y, z, 1, 2, 3);
    lemma_times_minor(z[1], x, y, z, 0, 2, 3);
    lemma_times_minor(z[2], x, y, z, 0, 1, 3);
    lemma_times_minor(z[3], x, y, z, 0, 1, 2);
    lemma_swap_last(x[1].spec_times(y[2]), z[0], z[3]);
    lemma_swap_last(x[1].spec_times(y[3]), z[0], z[2]);
    lemma_swap_last(x[2].spec_times(y[1]), z[0], z[3]);
    lemma_swap_last(x[2].spec_times(y[3]), z[0], z[1]);
    lemma_swap_last(x[3].spec_times(y[1]), z[0], z[2]);
    lemma_swap_last(x[3].spec_times(y[2]), z[0], z[1]);
    lemma_swap_last(x[0].spec_times(y[2]), z[1], z[3]);
    lemma_swap_last(x[0].spec_times(y[3]), z[1], z[2]);
    lemma_swap_last(x[2].spec_times(y[0]), z[1], z[3]);
    lemma_swap_last(x[3].spec_times(y[0]), z[1], z[2]);
    lemma_swap_last(x[0].spec_times(y[1]), z[2], z[3]);
    lemma_swap_last(x[1].spec_times(y[0]), z[2], z[3]);
    let e0 = six(t1203, t1302, t2103, t2301, t3102, t3201);
    let e1 = six(t0213, t0312, t2013, t2310, t3012, t3210);
    let e2 = six(t0123, t0321, t1023, t1320, t3021, t3120);
    lemma_regroups_six(e0, t0213, t0312, t2013, t2310, t3012, t3210);
    lemma_regroups_six(e0.spec_minus(e1), t0123, t0321, t1023, t1320, t3021, t3120);
    lemma_regroups_six(e0.spec_minus(e1).spec_plus(e2), t0132, t0231, t1032, t1230, t2031, t2130);
    let n = FormalSum::<S>::none();
    let sum = n.and(t1203).less(t1302).less(t2103).and(t2301)
        .and(t3102).less(t3201).less(t0213).and(t0312)
        .and(t2013).less(t2310).less(t3012).and(t3210)
        .and(t0123).less(t0321).less(t1023).and(t1320)
        .and(t3021).less(t3120).less(t0132).and(t0231)
        .and(t1032).less(t1230).less(t2031).and(t2130);
    lemma_zero_plus(t1203);
    assert(t1203 == t1230);
    assert(t1302 == t1320);
    assert(t2103 == t2130);
    assert(t2301 == t2310);
    assert(t3102 == t3120);
    assert(t3201 == t3210);
    assert(t0213 == t0231);
    assert(t0312 == t0321);
    assert(t2013 == t2031);
    assert(t3012 == t3021);
    assert(t0123 == t0132);
    assert(t1023 == t1032);
    assert(sum.value() == expansion(z, x, y, z));
    assert(sum.added =~= sum.subtracted);
    assert(sum.added.add(n.subtracted) =~= n.added.add(sum.subtracted));
    lemma_same(sum, n);
}

/// Row `i` of a matrix.
pub open spec fn row<S: Scalar>(m: ComputedTransform3D<S>, i: int) -> Seq<S> {
    seq![m.at(i, 0), m.at(i, 1), m.at(i, 2), m.at(i, 3)]
}

/// Column `j` of a matrix.
pub open spec fn column<S: Scalar>(m: ComputedTransform3D<S>, j: int) -> Seq<S> {
    seq![m.at(0, j), m.at(1, j), m.at(2, j), m.at(3, j)]
}

/// The determinant of the rows of a matrix.
pub open spec fn determinant_of_rows<S: Scalar>(m: ComputedTransform3D<S>) -> S {
    det4(row(m, 0), row(m, 1), row(m, 2), row(m, 3))
}

pub(crate) proof fn lemma_determinant<S: Ring>(m: ComputedTransform3D<S>)
    ensures
        m.spec_determinant() == determinant_of_rows(m),
{
    reveal(det4);
}

/// The signed minor that stands in row `i` and column `j` of the adjugate.
pub open spec fn cofactor<S: Scalar>(m: ComputedTransform3D<S>, i: int, j: int) -> S {
    let c = minor(
        row(m, other_index(j, 0)),
        row(m, other_index(j, 1)),
        row(m, other_index(j, 2)),
        other_index(i, 0),
        other_index(i, 1),
        other_index(i, 2),
    );
    if (i + j) % 2 == 0 {
        c
    } else {
        c.spec_negated()
    }
}

proof fn lemma_adjugate_entry<S: Ring>(m: ComputedTransform3D<S>, i: int, j: int)
    requires
        0 <= i < 4,
        0 <= j < 4,
    ensures
        m.adjugate_entry(i, j) == cofactor(m, i, j),
{
    broadcast use group_formal_sum;

    reveal(minor);
    let c0 = other_index(i, 0);
    let c1 = other_index(i, 1);
    let c2 = other_index(i, 2);
    let t012 = m.product3(j, c0, c1, c2);
    let t021 = m.product3(j, c0, c2, c1);
    let t102 = m.product3(j, c1, c0, c2);
    let t120 = m.product3(j, c1, c2, c0);
    let t201 = m.product3(j, c2, c0, c1);
    let t210 = m.product3(j, c2, c1, c0);
    let n = FormalSum::<S>::none();
    let x = n.and(t012).less(t021).less(t102).and(t120).and(t201).less(t210);
    lemma_zero_plus(t012);
    assert(x.value() == six(t012, t021, t102, t120, t201, t210));
    if (i + j) % 2 == 0 {
        let y = n.and(t120).less(t210).and(t201).less(t021).less(t102).and(t012);
        lemma_zero_plus(t120);
        assert(y.value() == m.adjugate_entry(i, j));
        assert(x.added =~= y.added);
        assert(x.subtracted =~= y.subtracted);
        lemma_same(x, y);
    } else {
        let y = n.and(t210).less(t120).less(t201).and(t021).and(t102).less(t012);
        lemma_zero_plus(t210);
        assert(y.value() == m.adjugate_entry(i, j));
        let f = x.flipped();
        assert(f.added =~= y.added);
        assert(f.subtracted =~= y.subtracted);
        lemma_flip(x);
        lemma_same(f, y);
    }
}

pub(crate) proof fn lemma_orders_of_three<S: Ring>(a: S, b: S, c: S)
    ensures
        times3(a, b, c) == times3(a, c, b),
        times3(a, b, c) == times3(b, a, c),
        times3(a, b, c) == times3(b, c, a),
        times3(a, b, c) == times3(c, a, b),
        times3(a, b, c) == times3(c, b, a),
{
    lemma_swap_last(a, b, c);
    lemma_swap_last(b, a, c);
    lemma_swap_last(c, a, b);
    S::times_commutes(a, b);
    S::times_commutes(a, c);
    S::times_commutes(b, c);
}

pub(crate) proof fn lemma_orders_of_four<S: Ring>(a: S, b: S, c: S, d: S)
    ensures
        times4(a, b, c, d) == times4(a, b, d, c),
        times4(a, b, c, d) == times4(a, c, b, d),
        times4(a, b, c, d) == times4(a, c, d, b),
        times4(a, b, c, d) == times4(a, d, b, c),
        times4(a, b, c, d) == times4(a, d, c, b),
        times4(a, b, c, d) == times4(b, a, c, d),
        times4(a, b, c, d) == times4(b, a, d, c),
        times4(a, b, c, d) == times4(b, c, a, d),
        times4(a, b, c, d) == times4(b, c, d, a),
        times4(a, b, c, d) == times4(b, d, a, c),
        times4(a, b, c, d) == times4(b, d, c, a),
        times4(a, b, c, d) == times4(c, a, b, d),
        times4(a, b, c, d) == times4(c, a, d, b),
        times4(a, b, c, d) == times4(c, b, a, d),
        times4(a, b, c, d) == times4(c, b, d, a),
        times4(a, b, c, d) == times4(c, d, a, b),
        times4(a, b, c, d) == times4(c, d, b, a),
        times4(a, b, c, d) == times4(d, a, b, c),
        times4(a, b, c, d) == times4(d, a, c, b),
        times4(a, b, c, d) == times4(d, b, a, c),
        times4(a, b, c, d) == times4(d, b, c, a),
        times4(a, b, c, d) == times4(d, c, a, b),
        times4(a, b, c, d) == times4(d, c, b, a),
{
    lemma_orders_of_three(a, b, c);
    lemma_orders_of_three(a, b, d);
    lemma_orders_of_three(a, c, d);
    lemma_orders_of_three(b, c, d);
    lemma_swap_last(a.spec_times(b), c, d);
    lemma_swap_last(a.spec_times(c), b, d);
    lemma_swap_last(b.spec_times(c), a, d);
}

/// The determinant of the columns is that of the rows.
proof fn lemma_determinant_of_columns<S: Ring>(m: ComputedTransform3D<S>)
    ensures
        det4(column(m, 0), column(m, 1), column(m, 2), column(m, 3)) == determinant_of_rows(m),
{
    broadcast use group_formal_sum;

    reveal(det4);
    let t3210 = times4(m.at(0, 3), m.at(1, 2), m.at(2, 1), m.at(3, 0));
    let t2310 = times4(m.at(0, 2), m.at(1, 3), m.at(2, 1), m.at(3, 0));
    let t3120 = times4(m.at(0, 3), m.at(1, 1), m.at(2, 2), m.at(3, 0));
    let t1320 = times4(m.at(0, 1), m.at(1, 3), m.at(2, 2), m.at(3, 0));
    let t2130 = times4(m.at(0, 2), m.at(1, 1), m.at(2, 3), m.at(3, 0));
    let t1230 = times4(m.at(0, 1), m.at(1, 2), m.at(2, 3), m.at(3, 0));
    let t3201 = times4(m.at(0, 3), m.at(1, 2), m.at(2, 0), m.at(3, 1));
    let t2301 = times4(m.at(0, 2), m.at(1, 3), m.at(2, 0), m.at(3, 1));
    let t3021 = times4(m.at(0, 3), m.at(1, 0), m.at(2, 2), m.at(3, 1));
    let t0321 = times4(m.at(0, 0), m.at(1, 3), m.at(2, 2), m.at(3, 1));
    let t2031 = times4(m.at(0, 2), m.at(1, 0), m.at(2, 3), m.at(3, 1));
    let t0231 = times4(m.at(0, 0), m.at(1, 2), m.at(2, 3), m.at(3, 1));
    let t3102 = times4(m.at(0, 3), m.at(1, 1), m.at(2, 0), m.at(3, 2));
    let t1302 = times4(m.at(0, 1), m.at(1, 3), m.at(2, 0), m.at(3, 2));
    let t3012 = times4(m.at(0, 3), m.at(1, 0), m.at(2, 1), m.at(3, 2));
    let t0312 = times4(m.at(0, 0), m.at(1, 3), m.at(2, 1), m.at(3, 2));
    let t1032 = times4(m.at(0, 1), m.at(1, 0), m.at(2, 3), m.at(3, 2));
    let t0132 = times4(m.at(0, 0), m.at(1, 1), m.at(2, 3), m.at(3, 2));
    let t2103 = times4(m.at(0, 2), m.at(1, 1), m.at(2, 0), m.at(3, 3));
    let t1203 = times4(m.at(0, 1), m.at(1, 2), m.at(2, 0), m.at(3, 3));
    let t2013 = times4(m.at(0, 2), m.at(1, 0), m.at(2, 1), m.at(3, 3));
    let t0213 = times4(m.at(0, 0), m.at(1, 2), m.at(2, 1), m.at(3, 3));
    let t1023 = times4(m.at(0, 1), m.at(1, 0), m.at(2, 2), m.at(3, 3));
    let t0123 = times4(m.at(0, 0), m.at(1, 1), m.at(2, 2), m.at(3, 3));
    lemma_orders_of_four(m.at(0, 3), m.at(1, 2), m.at(2, 1), m.at(3, 0));
    lemma_orders_of_four(m.at(0, 2), m.at(1, 3), m.at(2, 1), m.at(3, 0));
    lemma_orders_of_four(m.at(0, 3), m.at(1, 1), m.at(2, 2), m.at(3, 0));
    lemma_orders_of_four(m.at(0, 1), m.at(1, 3), m.at(2, 2), m.at(3, 0));
    lemma_orders_of_four(m.at(0, 2), m.at(1, 1), m.at(2, 3), m.at(3, 0));
    lemma_orders_of_four(m.at(0, 1), m.at(1, 2), m.at(2, 3), m.at(3, 0));
    lemma_orders_of_four(m.at(0, 3), m.at(1, 2), m.at(2, 0), m.at(3, 1));
    lemma_orders_of_four(m.at(0, 2), m.at(1, 3), m.at(2, 0), m.at(3, 1));
    lemma_orders_of_four(m.at(0, 3), m.at(1, 0), m.at(2, 2), m.at(3, 1));
    lemma_orders_of_four(m.at(0, 0), m.at(1, 3), m.at(2, 2), m.at(3, 1));
    lemma_orders_of_four(m.at(0, 2), m.at(1, 0), m.at(2, 3), m.at(3, 1));
    lemma_orders_of_four(m.at(0, 0), m.at(1, 2), m.at(2, 3), m.at(3, 1));
    lemma_orders_of_four(m.at(0, 3), m.at(1, 1), m.at(2, 0), m.at(3, 2));
    lemma_orders_of_four(m.at(0, 1), m.at(1, 3), m.at(2, 0), m.at(3, 2));
    lemma_orders_of_four(m.at(0, 3), m.at(1, 0), m.at(2, 1), m.at(3, 2));
    lemma_orders_of_four(m.at(0, 0), m.at(1, 3), m.at(2, 1), m.at(3, 2));
    lemma_orders_of_four(m.at(0, 1), m.at(1, 0), m.at(2, 3), m.at(3, 2));
    lemma_orders_of_four(m.at(0, 0), m.at(1, 1), m.at(2, 3), m.at(3, 2));
    lemma_orders_of_four(m.at(0, 2), m.at(1, 1), m.at(2, 0), m.at(3, 3));
    lemma_orders_of_four(m.at(0, 1), m.at(1, 2), m.at(2, 0), m.at(3, 3));
    lemma_orders_of_four(m.at(0, 2), m.at(1, 0), m.at(2, 1), m.at(3, 3));
    lemma_orders_of_four(m.at(0, 0), m.at(1, 2), m.at(2, 1), m.at(3, 3));
    lemma_orders_of_four(m.at(0, 1), m.at(1, 0), m.at(2, 2), m.at(3, 3));
    lemma_orders_of_four(m.at(0, 0), m.at(1, 1), m.at(2, 2), m.at(3, 3));
    let n = FormalSum::<S>::none();
    let x = n.and(t3210).less(t2310).less(t3120).and(t1320)
        .and(t2130).less(t1230).less(t3201).and(t2301)
        .and(t3021).less(t0321).less(t2031).and(t0231)
        .and(t3102).less(t1302).less(t3012).and(t0312)
        .and(t1032).less(t0132).less(t2103).and(t1203)
        .and(t2013).less(t0213).less(t1023).and(t0123);
    let y = n.and(t3210).less(t3201).less(t3120).and(t3021)
        .and(t3102).less(t3012).less(t2310).and(t2301)
        .and(t1320).less(t0321).less(t1302).and(t0312)
        .and(t2130).less(t2031).less(t1230).and(t0231)
        .and(t1032).less(t0132).less(t2103).and(t2013)
        .and(t1203).less(t0213).less(t1023).and(t0123);
    lemma_zero_plus(t3210);
    lemma_zero_plus(t3210);
    assert(x.value() == determinant_of_rows(m));
    assert(y.value() == det4(column(m, 0), column(m, 1), column(m, 2), column(m, 3)));
    assert(x.added =~= y.added);
    assert(x.subtracted =~= y.subtracted);
    lemma_same(x, y);
}

/// A minor may be computed along the columns.
proof fn lemma_minor_of_columns<S: Ring>(
    m: ComputedTransform3D<S>,
    r0: int,
    r1: int,
    r2: int,
    c0: int,
    c1: int,
    c2: int,
)
    requires
        0 <= r0 < 4,
        0 <= r1 < 4,
        0 <= r2 < 4,
        0 <= c0 < 4,
        0 <= c1 < 4,
        0 <= c2 < 4,
    ensures
        minor(row(m, r0), row(m, r1), row(m, r2), c0, c1, c2) == minor(
            column(m, c0),
            column(m, c1),
            column(m, c2),
            r0,
            r1,
            r2,
        ),
{
    broadcast use group_formal_sum;

    reveal(minor);
    lemma_at(m, r0, c0);
    lemma_at(m, r0, c1);
    lemma_at(m, r0, c2);
    lemma_at(m, r1, c0);
    lemma_at(m, r1, c1);
    lemma_at(m, r1, c2);
    lemma_at(m, r2, c0);
    lemma_at(m, r2, c1);
    lemma_at(m, r2, c2);
    let t012 = times3(m.at(r0, c0), m.at(r1, c1), m.at(r2, c2));
    lemma_orders_of_three(m.at(r0, c0), m.at(r1, c1), m.at(r2, c2));
    let t021 = times3(m.at(r0, c0), m.at(r1, c2), m.at(r2, c1));
    lemma_orders_of_three(m.at(r0, c0), m.at(r1, c2), m.at(r2, c1));
    let t102 = times3(m.at(r0, c1), m.at(r1, c0), m.at(r2, c2));
    lemma_orders_of_three(m.at(r0, c1), m.at(r1, c0), m.at(r2, c2));
    let t120 = times3(m.at(r0, c1), m.at(r1, c2), m.at(r2, c0));
    lemma_orders_of_three(m.at(r0, c1), m.at(r1, c2), m.at(r2, c0));
    let t201 = times3(m.at(r0, c2), m.at(r1, c0), m.at(r2, c1));
    lemma_orders_of_three(m.at(r0, c2), m.at(r1, c0), m.at(r2, c1));
    let t210 = times3(m.at(r0, c2), m.at(r1, c1), m.at(r2, c0));
    lemma_orders_of_three(m.at(r0, c2), m.at(r1, c1), m.at(r2, c0));
    let n = FormalSum::<S>::none();
    let x = n.and(t012).less(t021).less(t102).and(t120)
        .and(t201).less(t210);
    let y = n.and(t012).less(t021).less(t102).and(t201)
        .and(t120).less(t210);
    lemma_zero_plus(t012);
    assert(x.value() == minor(row(m, r0), row(m, r1), row(m, r2), c0, c1, c2));
    assert(y.value() == minor(column(m, c0), column(m, c1), column(m, c2), r0, r1, r2));
    assert(x.added =~= y.added);
    assert(x.subtracted =~= y.subtracted);
    lemma_same(x, y);
}

proof fn lemma_at<S: Ring>(m: ComputedTransform3D<S>, i: int, j: int)
    requires
        0 <= i < 4,
        0 <= j < 4,
    ensures
        column(m, j)[i] == m.at(i, j),
        row(m, i)[j] == m.at(i, j),
{
}

/// Minors with alternating signs, applied to a row, are its expansion.
proof fn lemma_signed_expansion<S: Ring>(
    v: Seq<S>,
    x: Seq<S>,
    y: Seq<S>,
    z: Seq<S>,
    f0: S,
    f1: S,
    f2: S,
    f3: S,
    even: bool,
)
    requires
        ({
            let m0 = minor(x, y, z, 1, 2, 3);
            let m1 = minor(x, y, z, 0, 2, 3);
            let m2 = minor(x, y, z, 0, 1, 3);
            let m3 = minor(x, y, z, 0, 1, 2);
            if even {
                f0 == m0 && f1 == m1.spec_negated() && f2 == m2 && f3 == m3.spec_negated()
            } else {
                f0 == m0.spec_negated() && f1 == m1 && f2 == m2.spec_negated() && f3 == m3
            }
        }),
    ensures
        dot4(v[0], v[1], v[2], v[3], f0, f1, f2, f3) == if even {
            expansion(v, x, y, z)
        } else {
            expansion(v, x, y, z).spec_negated()
        },
{
    let m0 = minor(x, y, z, 1, 2, 3);
    let m1 = minor(x, y, z, 0, 2, 3);
    let m2 = minor(x, y, z, 0, 1, 3);
    let m3 = minor(x, y, z, 0, 1, 2);
    let t0 = v[0].spec_times(m0);
    let t1 = v[1].spec_times(m1);
    let t2 = v[2].spec_times(m2);
    let t3 = v[3].spec_times(m3);
    let e1 = t0.spec_minus(t1);
    let e2 = e1.spec_plus(t2);
    if even {
        lemma_times_negated(v[1], m1);
        lemma_times_negated(v[3], m3);
        S::minus_adds_negated(t0, t1);
        S::minus_adds_negated(e2, t3);
    } else {
        lemma_times_negated(v[0], m0);
        lemma_times_negated(v[2], m2);
        S::minus_adds_negated(t0, t1);
        S::minus_adds_negated(e2, t3);
        lemma_negated(e2, t3.spec_negated());
        lemma_negated(t3, t3);
        lemma_negated(e1, t2);
        lemma_negated(t0, t1.spec_negated());
        lemma_negated(t1, t1);
    }
}

/// A row applied to a column of the adjugate gives the determinant where the two
/// belong together, and 0 elsewhere.
proof fn lemma_row_times_cofactors<S: Ring>(m: ComputedTransform3D<S>, i: int, j: int)
    requires
        0 <= i < 4,
        0 <= j < 4,
    ensures
        dot4(
            m.at(i, 0),
            m.at(i, 1),
            m.at(i, 2),
            m.at(i, 3),
            cofactor(m, 0, j),
            cofactor(m, 1, j),
            cofactor(m, 2, j),
            cofactor(m, 3, j),
        ) == if i == j {
            determinant_of_rows(m)
        } else {
            S::spec_zero()
        },
{
    let v = row(m, i);
    let x = row(m, other_index(j, 0));
    let y = row(m, other_index(j, 1));
    let z = row(m, other_index(j, 2));
    lemma_signed_expansion(
        v,
        x,
        y,
        z,
        cofactor(m, 0, j),
        cofactor(m, 1, j),
        cofactor(m, 2, j),
        cofactor(m, 3, j),
        j % 2 == 0,
    );
    lemma_signed_determinant(row(m, 0), row(m, 1), row(m, 2), row(m, 3));
    lemma_expansion_repeats_first(x, y, z);
    lemma_expansion_repeats_second(x, y, z);
    lemma_expansion_repeats_third(x, y, z);
    lemma_negated(S::spec_zero(), S::spec_zero());
    if i != j {
        assert(i == other_index(j, 0) || i == other_index(j, 1) || i == other_index(j, 2));
    } else if j == 0 {
    } else if j == 1 {
    } else if j == 2 {
    } else {
    }
}

/// Expanding along any row gives the determinant, up to the sign.
proof fn lemma_signed_determinant<S: Ring>(p: Seq<S>, q: Seq<S>, r: Seq<S>, s: Seq<S>)
    ensures
        expansion(p, q, r, s) == det4(p, q, r, s),
        expansion(q, p, r, s).spec_negated() == det4(p, q, r, s),
        expansion(r, p, q, s) == det4(p, q, r, s),
        expansion(s, p, q, r).spec_negated() == det4(p, q, r, s),
{
    lemma_expansion_first(p, q, r, s);
    lemma_expansion_second(p, q, r, s);
    lemma_expansion_third(p, q, r, s);
    lemma_expansion_fourth(p, q, r, s);
    lemma_negated(det4(p, q, r, s), S::spec_zero());
}

/// The determinant may be expanded along any row, with alternating signs.
pub proof fn law_determinant_expands_along_rows<S: Ring>(m: ComputedTransform3D<S>)
    ensures
        expansion(row(m, 0), row(m, 1), row(m, 2), row(m, 3)) == m.spec_determinant(),
        expansion(row(m, 1), row(m, 0), row(m, 2), row(m, 3)).spec_negated()
            == m.spec_determinant(),
        expansion(row(m, 2), row(m, 0), row(m, 1), row(m, 3)) == m.spec_determinant(),
        expansion(row(m, 3), row(m, 0), row(m, 1), row(m, 2)).spec_negated()
            == m.spec_determinant(),
{
    lemma_determinant(m);
    lemma_signed_determinant(row(m, 0), row(m, 1), row(m, 2), row(m, 3));
}

/// A row of the adjugate applied to a column gives the determinant where the two
/// belong together, and 0 elsewhere.
proof fn lemma_cofactors_times_column<S: Ring>(m: ComputedTransform3D<S>, i: int, j: int)
    requires
        0 <= i < 4,
        0 <= j < 4,
    ensures
        dot4(
            cofactor(m, i, 0),
            cofactor(m, i, 1),
            cofactor(m, i, 2),
            cofactor(m, i, 3),
            m.at(0, j),
            m.at(1, j),
            m.at(2, j),
            m.at(3, j),
        ) == if i == j {
            determinant_of_rows(m)
        } else {
            S::spec_zero()
        },
{
    let v = column(m, j);
    let c0 = other_index(i, 0);
    let c1 = other_index(i, 1);
    let c2 = other_index(i, 2);
    let x = column(m, c0);
    let y = column(m, c1);
    let z = column(m, c2);
    lemma_minor_of_columns(m, 1, 2, 3, c0, c1, c2);
    lemma_minor_of_columns(m, 0, 2, 3, c0, c1, c2);
    lemma_minor_of_columns(m, 0, 1, 3, c0, c1, c2);
    lemma_minor_of_columns(m, 0, 1, 2, c0, c1, c2);
    let f0 = cofactor(m, i, 0);
    let f1 = cofactor(m, i, 1);
    let f2 = cofactor(m, i, 2);
    let f3 = cofactor(m, i, 3);
    S::times_commutes(f0, v[0]);
    S::times_commutes(f1, v[1]);
    S::times_commutes(f2, v[2]);
    S::times_commutes(f3, v[3]);
    lemma_signed_expansion(v, x, y, z, f0, f1, f2, f3, i % 2 == 0);
    lemma_determinant_of_columns(m);
    lemma_signed_determinant(column(m, 0), column(m, 1), column(m, 2), column(m, 3));
    lemma_expansion_repeats_first(x, y, z);
    lemma_expansion_repeats_second(x, y, z);
    lemma_expansion_repeats_third(x, y, z);
    lemma_negated(S::spec_zero(), S::spec_zero());
    if i != j {
        assert(j == other_index(i, 0) || j == other_index(i, 1) || j == other_index(i, 2));
    } else if i == 0 {
    } else if i == 1 {
    } else if i == 2 {
    } else {
    }
}

/// The identity with every entry multiplied by `d`.
pub open spec fn scaled_identity<S: Scalar>(d: S) -> ComputedTransform3D<S> {
    ComputedTransform3D::<S>::spec_identity().spec_multiply_scalar(d)
}

proof fn lemma_scaled_identity_at<S: Ring>(d: S)
    ensures
        forall|i: int, j: int|
            0 <= i < 4 && 0 <= j < 4 ==> #[trigger] scaled_identity(d).at(i, j) == if i == j {
                d
            } else {
                S::spec_zero()
            },
{
    let e = ComputedTransform3D::<S>::spec_identity();
    lemma_tabulate_at(|i: int, j: int| e.at(i, j).spec_times(d));
    lemma_times_zero(d);
    lemma_one_times(d);
}

/// A matrix times its adjugate, in either order, is the identity times the
/// determinant.
pub proof fn law_adjugate<S: Ring>(m: ComputedTransform3D<S>)
    ensures
        m.spec_followed_by(m.spec_adjugate()) == scaled_identity(m.spec_determinant()),
        m.spec_adjugate().spec_followed_by(m) == scaled_identity(m.spec_determinant()),
{
    let adj = m.spec_adjugate();
    let det = m.spec_determinant();
    lemma_determinant(m);
    lemma_tabulate_at(|i: int, j: int| m.adjugate_entry(i, j));
    lemma_scaled_identity_at(det);
    lemma_followed_by_at(m, adj);
    lemma_followed_by_at(adj, m);
    assert forall|i: int, j: int| 0 <= i < 4 && 0 <= j < 4 implies m.spec_followed_by(adj).at(i, j)
        == scaled_identity(det).at(i, j) && adj.spec_followed_by(m).at(i, j) == scaled_identity(
        det,
    ).at(i, j) by {
        lemma_adjugate_entry(m, 0, j);
        lemma_adjugate_entry(m, 1, j);
        lemma_adjugate_entry(m, 2, j);
        lemma_adjugate_entry(m, 3, j);
        lemma_adjugate_entry(m, i, 0);
        lemma_adjugate_entry(m, i, 1);
        lemma_adjugate_entry(m, i, 2);
        lemma_adjugate_entry(m, i, 3);
        lemma_row_times_cofactors(m, i, j);
        lemma_cofactors_times_column(m, i, j);
    }
    lemma_matrix_equal(m.spec_followed_by(adj), scaled_identity(det));
    lemma_matrix_equal(adj.spec_followed_by(m), scaled_identity(det));
}

/// Multiplying one of two matrices by a number multiplies the combination.
pub proof fn law_multiply_scalar_of_product<S: Ring>(
    a: ComputedTransform3D<S>,
    b: ComputedTransform3D<S>,
    x: S,
)
    ensures
        a.spec_followed_by(b.spec_multiply_scalar(x)) == a.spec_followed_by(
            b,
        ).spec_multiply_scalar(x),
        b.spec_multiply_scalar(x).spec_followed_by(a) == b.spec_followed_by(
            a,
        ).spec_multiply_scalar(x),
{
    let bx = b.spec_multiply_scalar(x);
    let ab = a.spec_followed_by(b);
    let ba = b.spec_followed_by(a);
    lemma_followed_by_at(a, b);
    lemma_followed_by_at(b, a);
    lemma_followed_by_at(a, bx);
    lemma_followed_by_at(bx, a);
    lemma_tabulate_at(|i: int, j: int| b.at(i, j).spec_times(x));
    lemma_tabulate_at(|i: int, j: int| ab.at(i, j).spec_times(x));
    lemma_tabulate_at(|i: int, j: int| ba.at(i, j).spec_times(x));
    assert forall|i: int, j: int| 0 <= i < 4 && 0 <= j < 4 implies a.spec_followed_by(bx).at(i, j)
        == ab.spec_multiply_scalar(x).at(i, j) && bx.spec_followed_by(a).at(i, j)
        == ba.spec_multiply_scalar(x).at(i, j) by {
        lemma_dot_scaled(
            a.at(i, 0),
            a.at(i, 1),
            a.at(i, 2),
            a.at(i, 3),
            b.at(0, j),
            b.at(1, j),
            b.at(2, j),
            b.at(3, j),
            x,
        );
        lemma_dot_scaled(
            b.at(i, 0),
            b.at(i, 1),
            b.at(i, 2),
            b.at(i, 3),
            a.at(0, j),
            a.at(1, j),
            a.at(2, j),
            a.at(3, j),
            x,
        );
    }
    lemma_matrix_equal(a.spec_followed_by(bx), ab.spec_multiply_scalar(x));
    lemma_matrix_equal(bx.spec_followed_by(a), ba.spec_multiply_scalar(x));
}

/// A dot product one side of which is multiplied by `x`.
pub(crate) proof fn lemma_dot_scaled<S: Ring>(
    a0: S,
    a1: S,
    a2: S,
    a3: S,
    b0: S,
    b1: S,
    b2: S,
    b3: S,
    x: S,
)
    ensures
        dot4(
            a0,
            a1,
            a2,
            a3,
            b0.spec_times(x),
            b1.spec_times(x),
            b2.spec_times(x),
            b3.spec_times(x),
        ) == dot4(a0, a1, a2, a3, b0, b1, b2, b3).spec_times(x),
        dot4(
            a0.spec_times(x),
            a1.spec_times(x),
            a2.spec_times(x),
            a3.spec_times(x),
            b0,
            b1,
            b2,
            b3,
        ) == dot4(a0, a1, a2, a3, b0, b1, b2, b3).spec_times(x),
{
    lemma_sum4_times(
        a0.spec_times(b0),
        a1.spec_times(b1),
        a2.spec_times(b2),
        a3.spec_times(b3),
        x,
    );
    S::times_associates(a0, b0, x);
    S::times_associates(a1, b1, x);
    S::times_associates(a2, b2, x);
    S::times_associates(a3, b3, x);
    lemma_swap_last(a0, x, b0);
    lemma_swap_last(a1, x, b1);
    lemma_swap_last(a2, x, b2);
    lemma_swap_last(a3, x, b3);
}

/// Whether the determinant of a transform divides 1: in a field, whether it is not 0;
/// among the whole numbers, whether it is 1 or -1.
pub open spec fn is_invertible<S: Scalar>(m: ComputedTransform3D<S>) -> bool {
    let det = m.spec_determinant();
    S::spec_one().spec_over(det).spec_times(det) == S::spec_one()
}

/// A transform whose determinant divides 1 is undone by its inverse, in either order.
pub proof fn law_inverse_undoes<S: Ring>(m: ComputedTransform3D<S>)
    requires
        is_invertible(m),
    ensures
        m.spec_followed_by(m.spec_inverse()) == ComputedTransform3D::<S>::spec_identity(),
        m.spec_inverse().spec_followed_by(m) == ComputedTransform3D::<S>::spec_identity(),
{
    let det = m.spec_determinant();
    let d = S::spec_one().spec_over(det);
    let e = ComputedTransform3D::<S>::spec_identity();
    let s = scaled_identity(det);
    law_adjugate(m);
    law_multiply_scalar_of_product(m, m.spec_adjugate(), d);
    lemma_scaled_identity_at(det);
    lemma_tabulate_at(|i: int, j: int| s.at(i, j).spec_times(d));
    S::times_commutes(d, det);
    lemma_times_zero(d);
    lemma_matrix_equal(s.spec_multiply_scalar(d), e);
}

/// In a field the inverse of every transform whose determinant is not 0 undoes it,
/// in either order.
pub proof fn law_inverse_undoes_unless_singular<S: Field>(m: ComputedTransform3D<S>)
    requires
        m.spec_determinant() != S::spec_zero(),
    ensures
        is_invertible(m),
        m.spec_followed_by(m.spec_inverse()) == ComputedTransform3D::<S>::spec_identity(),
        m.spec_inverse().spec_followed_by(m) == ComputedTransform3D::<S>::spec_identity(),
{
    S::over_undoes_times(S::spec_one(), m.spec_determinant());
    law_inverse_undoes(m);
}

} // verus!
