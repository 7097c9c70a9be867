//! Laws of rotations, over exact scalars.
use crate::composition_laws::law_translations_add;
use crate::formal_product::{group_formal_product, lemma_same_factors, three_of, two_of};
use crate::formal_sum::{group_formal_sum, lemma_same, FormalSum};
use crate::ring::{
    lemma_distributes, lemma_factor_cancels, lemma_minus_plus, lemma_negated, lemma_one_times,
    lemma_regroups, lemma_times_interchanges, lemma_times_negated, lemma_times_zero,
    lemma_zero_plus, Angles, Field, Ring,
};
use crate::scalar::Scalar;
use crate::transform::{lemma_matrix_equal, lemma_tabulate_at, ComputedTransform3D, RotationMode};
use crate::transform_laws::{
    determinant_of_rows, dot4, law_followed_by_is_associative, law_identity_is_neutral,
    lemma_determinant, lemma_dot4_unit, lemma_expansion_fourth, lemma_followed_by_at,
    lemma_orders_of_four, lemma_swap_last, minor, row, six, times3,
};
use vstd::prelude::*;

verus! {

/// `x * x + y * y + z * z`, which is 1 for a normalized axis.
pub open spec fn squared_length<S: Scalar>(x: S, y: S, z: S) -> S {
    x.spec_times(x).spec_plus(y.spec_times(y)).spec_plus(z.spec_times(z))
}

/// Whether a sine and a cosine belong to an angle.
pub open spec fn on_circle<S: Scalar>(sin: S, cos: S) -> bool {
    sin.spec_times(sin).spec_plus(cos.spec_times(cos)) == S::spec_one()
}

/// The numbers of a rotation about the axis (a, b, c): for the angle that it turns by, `p`
/// is the cosine, `d` the sine, and `q` is 1 less the cosine.
pub open spec fn is_turn<S: Scalar>(a: S, b: S, c: S, d: S, p: S, q: S) -> bool {
    &&& squared_length(a, b, c) == S::spec_one()
    &&& p.spec_plus(q) == S::spec_one()
    &&& d.spec_times(d) == q.spec_plus(p.spec_times(q))
}

/// `p + a * a * q`: an entry of a rotation on the diagonal.
pub open spec fn kept<S: Scalar>(a: S, p: S, q: S) -> S {
    p.spec_plus(a.spec_times(a).spec_times(q))
}

/// `a * b * q + c * d`: an entry of a rotation beside the diagonal.
pub open spec fn mixed<S: Scalar>(a: S, b: S, c: S, d: S, q: S) -> S {
    a.spec_times(b).spec_times(q).spec_plus(c.spec_times(d))
}

/// `a * b * q - c * d`: the entry on the other side of the diagonal.
pub open spec fn mixed_back<S: Scalar>(a: S, b: S, c: S, d: S, q: S) -> S {
    a.spec_times(b).spec_times(q).spec_minus(c.spec_times(d))
}

/// `x0 * y0 + x1 * y1 + x2 * y2`.
pub open spec fn dot3<S: Scalar>(x0: S, x1: S, x2: S, y0: S, y1: S, y2: S) -> S {
    x0.spec_times(y0).spec_plus(x1.spec_times(y1)).spec_plus(x2.spec_times(y2))
}

/// A row of a rotation applied to a vector, by the axis and what is across it.
proof fn lemma_row_applied<S: Ring>(a: S, b: S, c: S, d: S, p: S, q: S, w0: S, w1: S, w2: S)
    ensures
        dot3(kept(a, p, q), mixed(a, b, c, d, q), mixed_back(a, c, b, d, q), w0, w1, w2)
            == p.spec_times(w0).spec_plus(a.spec_times(q).spec_times(dot3(a, b, c, w0, w1, w2)))
            .spec_plus(d.spec_times(c.spec_times(w1).spec_minus(b.spec_times(w2)))),
{
    broadcast use group_formal_sum;

    let aq = a.spec_times(q);
    let (aw, bw, cw) = (a.spec_times(w0), b.spec_times(w1), c.spec_times(w2));
    let along = p.spec_times(w0);
    let (t0, t1, t2) = (aq.spec_times(aw), aq.spec_times(bw), aq.spec_times(cw));
    let u1 = d.spec_times(c.spec_times(w1));
    let u2 = d.spec_times(b.spec_times(w2));
    lemma_distributes(p, a.spec_times(a).spec_times(q), w0);
    lemma_distributes(a.spec_times(b).spec_times(q), c.spec_times(d), w1);
    lemma_distributes(a.spec_times(c).spec_times(q), b.spec_times(d), w2);
    lemma_pulls(a, a, q, w0);
    lemma_pulls(a, b, q, w1);
    lemma_pulls(a, c, q, w2);
    S::times_commutes(c, d);
    S::times_associates(d, c, w1);
    S::times_commutes(b, d);
    S::times_associates(d, b, w2);
    lemma_distributes(aw.spec_plus(bw), cw, aq);
    lemma_distributes(aw, bw, aq);
    lemma_distributes(c.spec_times(w1), b.spec_times(w2), d);
    let left = along.spec_plus(t0);
    lemma_regroups(left, t1, u1);
    lemma_regroups(left.spec_plus(t1).spec_plus(u1), t2, u2);
    lemma_regroups(along, t0.spec_plus(t1), t2);
    lemma_regroups(along, t0, t1);
    lemma_regroups(left.spec_plus(t1).spec_plus(t2), u1, u2);
    lemma_zero_plus(along);
    let n = FormalSum::<S>::none();
    let x = n.and(along).and(t0).and(t1).and(u1).and(t2).less(u2);
    let y = n.and(along).and(t0).and(t1).and(t2).and(u1).less(u2);
    assert(x.value() == left.spec_plus(t1).spec_plus(u1).spec_plus(t2).spec_minus(u2));
    assert(y.value() == left.spec_plus(t1).spec_plus(t2).spec_plus(u1).spec_minus(u2));
    assert(x.added =~= y.added);
    lemma_same(x, y);
}

/// `a * b * q * w` is `(a * q) * (b * w)`.
proof fn lemma_pulls<S: Ring>(a: S, b: S, q: S, w: S)
    ensures
        a.spec_times(b).spec_times(q).spec_times(w) == a.spec_times(q).spec_times(
            b.spec_times(w),
        ),
{
    lemma_swap_last(a, b, q);
    S::times_associates(a.spec_times(q), b, w);
}

/// A row of a rotation applied to the axis gives its part of the axis.
proof fn lemma_row_of_axis<S: Ring>(a: S, b: S, c: S, d: S, p: S, q: S)
    requires
        is_turn(a, b, c, d, p, q),
    ensures
        dot3(kept(a, p, q), mixed(a, b, c, d, q), mixed_back(a, c, b, d, q), a, b, c) == a,
{
    lemma_row_applied(a, b, c, d, p, q, a, b, c);
    S::times_commutes(c, b);
    lemma_negated(c.spec_times(b), c.spec_times(b));
    lemma_times_zero(d);
    S::times_one(a.spec_times(q));
    S::times_commutes(p, a);
    S::times_distributes(a, p, q);
    S::times_one(a);
    S::plus_zero(a);
}

proof fn lemma_dot3_commutes<S: Ring>(x0: S, x1: S, x2: S, y0: S, y1: S, y2: S)
    ensures
        dot3(x0, x1, x2, y0, y1, y2) == dot3(y0, y1, y2, x0, x1, x2),
{
    S::times_commutes(x0, y0);
    S::times_commutes(x1, y1);
    S::times_commutes(x2, y2);
}

proof fn lemma_dot3_cycles<S: Ring>(x0: S, x1: S, x2: S, y0: S, y1: S, y2: S)
    ensures
        dot3(x0, x1, x2, y0, y1, y2) == dot3(x1, x2, x0, y1, y2, y0),
        dot3(x0, x1, x2, y0, y1, y2) == dot3(x2, x0, x1, y2, y0, y1),
{
    let t0 = x0.spec_times(y0);
    let t1 = x1.spec_times(y1);
    let t2 = x2.spec_times(y2);
    S::plus_associates(t0, t1, t2);
    S::plus_commutes(t0, t1.spec_plus(t2));
    S::plus_associates(t2, t0, t1);
    S::plus_commutes(t2, t0.spec_plus(t1));
}

/// The numbers of a rotation do not depend on which axis is named first.
proof fn lemma_turn_cycles<S: Ring>(a: S, b: S, c: S, d: S, p: S, q: S)
    requires
        is_turn(a, b, c, d, p, q),
    ensures
        is_turn(b, c, a, d, p, q),
        is_turn(c, a, b, d, p, q),
{
    lemma_dot3_cycles(a, b, c, a, b, c);
}

/// A product with the square of `d`, which is `q + p * q`.
proof fn lemma_times_dd<S: Ring>(t: S, d: S, p: S, q: S)
    requires
        d.spec_times(d) == q.spec_plus(p.spec_times(q)),
    ensures
        t.spec_times(d.spec_times(d)) == t.spec_times(q).spec_plus(p.spec_times(t.spec_times(q))),
{
    S::times_distributes(t, q, p.spec_times(q));
    S::times_associates(t, p, q);
    S::times_commutes(t, p);
    S::times_associates(p, t, q);
}

/// The shares of the axis add up: `a * a * q + b * b * q + c * c * q` is `q`.
proof fn lemma_shares<S: Ring>(a: S, b: S, c: S, q: S)
    requires
        squared_length(a, b, c) == S::spec_one(),
    ensures
        a.spec_times(a).spec_times(q).spec_plus(b.spec_times(b).spec_times(q)).spec_plus(
            c.spec_times(c).spec_times(q),
        ) == q,
{
    let aa = a.spec_times(a);
    let bb = b.spec_times(b);
    let cc = c.spec_times(c);
    lemma_distributes(aa.spec_plus(bb), cc, q);
    lemma_distributes(aa, bb, q);
    lemma_one_times(q);
}

/// A row of a rotation has the length 1.
proof fn lemma_row_squared<S: Ring>(a: S, b: S, c: S, d: S, p: S, q: S)
    requires
        is_turn(a, b, c, d, p, q),
    ensures
        ({
            let m1 = mixed(a, b, c, d, q);
            let m2 = mixed_back(a, c, b, d, q);
            dot3(kept(a, p, q), m1, m2, kept(a, p, q), m1, m2) == S::spec_one()
        }),
{
    broadcast use group_formal_sum;

    let k = kept(a, p, q);
    let m1 = mixed(a, b, c, d, q);
    let m2 = mixed_back(a, c, b, d, q);
    let aaq = a.spec_times(a).spec_times(q);
    let bbq = b.spec_times(b).spec_times(q);
    let ccq = c.spec_times(c).spec_times(q);
    lemma_row_applied(a, b, c, d, p, q, k, m1, m2);
    lemma_row_of_axis(a, b, c, d, p, q);
    lemma_dot3_commutes(a, b, c, k, m1, m2);
    // along the axis
    lemma_swap_last(a, q, a);
    lemma_distributes(p, aaq, p);
    // across the axis
    lemma_across(a, b, c, d, q);
    lemma_distributes(c.spec_times(c.spec_times(d)), b.spec_times(b.spec_times(d)), d);
    lemma_quarters(c, c, d);
    lemma_quarters(b, b, d);
    lemma_times_dd(c.spec_times(c), d, p, q);
    lemma_times_dd(b.spec_times(b), d, p, q);
    let (pp, pa, pb, pc) = (
        p.spec_times(p),
        p.spec_times(aaq),
        p.spec_times(bbq),
        p.spec_times(ccq),
    );
    let sum = pp.spec_plus(pa).spec_plus(aaq);
    lemma_regroups(sum, ccq.spec_plus(pc), bbq.spec_plus(pb));
    lemma_regroups(sum, ccq, pc);
    lemma_regroups(sum.spec_plus(ccq).spec_plus(pc), bbq, pb);
    // all shares of the axis together
    lemma_shares(a, b, c, q);
    lemma_distributes(aaq.spec_plus(bbq), ccq, p);
    lemma_distributes(aaq, bbq, p);
    let pq = pa.spec_plus(pb).spec_plus(pc);
    lemma_regroups(pp, pa.spec_plus(pb), pc);
    lemma_regroups(pp, pa, pb);
    lemma_regroups(pp.spec_plus(pq), aaq.spec_plus(bbq), ccq);
    lemma_regroups(pp.spec_plus(pq), aaq, bbq);
    lemma_zero_plus(pp);
    let n = FormalSum::<S>::none();
    let x = n.and(pp).and(pa).and(aaq).and(ccq).and(pc).and(bbq).and(pb);
    let y = n.and(pp).and(pa).and(pb).and(pc).and(aaq).and(bbq).and(ccq);
    assert(x.value() == sum.spec_plus(ccq).spec_plus(pc).spec_plus(bbq).spec_plus(pb));
    assert(y.value() == pp.spec_plus(pq).spec_plus(q));
    assert(x.added =~= y.added);
    lemma_same(x, y);
    S::times_distributes(p, p, q);
    S::times_one(p);
}

/// What is across the axis: `c * (a * b * q + c * d) - b * (a * c * q - b * d)` is
/// `c * (c * d) + b * (b * d)`.
proof fn lemma_across<S: Ring>(a: S, b: S, c: S, d: S, q: S)
    ensures
        c.spec_times(mixed(a, b, c, d, q)).spec_minus(b.spec_times(mixed_back(a, c, b, d, q)))
            == c.spec_times(c.spec_times(d)).spec_plus(b.spec_times(b.spec_times(d))),
{
    let abq = a.spec_times(b).spec_times(q);
    let acq = a.spec_times(c).spec_times(q);
    let ccd = c.spec_times(c.spec_times(d));
    let bbd = b.spec_times(b.spec_times(d));
    let k = c.spec_times(abq);
    lemma_distributes(abq, c.spec_times(d), c);
    lemma_distributes(acq, b.spec_times(d), b);
    S::times_commutes(c, abq);
    S::times_commutes(b, acq);
    lemma_orders_of_four(a, b, q, c);
    assert(k == b.spec_times(acq));
    lemma_regroups(k.spec_plus(ccd), k, bbd);
    S::plus_commutes(k, ccd);
    lemma_regroups(ccd, k, k);
    lemma_negated(k, k);
    S::plus_zero(ccd);
}

/// `d * (a * (b * d))` is `a * b * (d * d)`.
proof fn lemma_quarters<S: Ring>(a: S, b: S, d: S)
    ensures
        d.spec_times(a.spec_times(b.spec_times(d))) == a.spec_times(b).spec_times(
            d.spec_times(d),
        ),
{
    S::times_associates(d, a, b.spec_times(d));
    S::times_commutes(d, a);
    S::times_associates(a, d, b.spec_times(d));
    S::times_commutes(b, d);
    S::times_associates(d, d, b);
    S::times_commutes(d.spec_times(d), b);
    S::times_associates(a, b, d.spec_times(d));
}

/// Two neighbouring rows of a rotation are perpendicular.
proof fn lemma_row_by_row<S: Ring>(a: S, b: S, c: S, d: S, p: S, q: S)
    requires
        is_turn(a, b, c, d, p, q),
    ensures
        dot3(
            kept(a, p, q),
            mixed(a, b, c, d, q),
            mixed_back(a, c, b, d, q),
            mixed_back(a, b, c, d, q),
            kept(b, p, q),
            mixed(b, c, a, d, q),
        ) == S::spec_zero(),
{
    broadcast use group_formal_sum;

    let w0 = mixed_back(a, b, c, d, q);
    let w1 = kept(b, p, q);
    let w2 = mixed(b, c, a, d, q);
    let ab = a.spec_times(b);
    let abq = ab.spec_times(q);
    let bbq = b.spec_times(b).spec_times(q);
    let bcq = b.spec_times(c).spec_times(q);
    let dd = d.spec_times(d);
    lemma_row_applied(a, b, c, d, p, q, w0, w1, w2);
    // along the axis
    lemma_turn_cycles(a, b, c, d, p, q);
    lemma_row_of_axis(b, c, a, d, p, q);
    S::times_commutes(a, b);
    lemma_dot3_commutes(b, c, a, w1, w2, w0);
    lemma_dot3_cycles(a, b, c, w0, w1, w2);
    lemma_swap_last(a, q, b);
    lemma_distributes(abq, c.spec_times(d), p);
    // across the axis
    let cp = c.spec_times(p);
    let k = c.spec_times(bbq);
    let bad = b.spec_times(a.spec_times(d));
    lemma_distributes(p, bbq, c);
    lemma_distributes(bcq, a.spec_times(d), b);
    S::times_commutes(c, bbq);
    S::times_commutes(b, bcq);
    lemma_orders_of_four(b, b, q, c);
    assert(k == b.spec_times(bcq));
    lemma_regroups(cp.spec_plus(k), k, bad);
    lemma_regroups(cp, k, k);
    lemma_negated(k, k);
    S::plus_zero(cp);
    lemma_distributes(cp, bad, d);
    lemma_quarters(b, a, d);
    lemma_times_dd(ab, d, p, q);
    // together
    let pabq = p.spec_times(abq);
    let dcp = d.spec_times(cp);
    S::times_commutes(p, c.spec_times(d));
    S::times_commutes(d, cp);
    lemma_swap_last(c, d, p);
    assert(p.spec_times(c.spec_times(d)) == dcp);
    let all = pabq.spec_minus(dcp).spec_plus(abq);
    lemma_regroups(all, dcp, ab.spec_times(dd));
    lemma_regroups(all.spec_plus(dcp), abq, pabq);
    lemma_zero_plus(pabq);
    let n = FormalSum::<S>::none();
    let x = n.and(pabq).less(dcp).and(abq).and(dcp).less(abq).less(pabq);
    assert(x.value() == all.spec_plus(dcp).spec_minus(abq).spec_minus(pabq));
    assert(x.added.add(n.subtracted) =~= n.added.add(x.subtracted));
    lemma_same(x, n);
}

/// `(u + v) * (w + t)`, and the same with differences, term by term.
proof fn lemma_four_products<S: Ring>(u: S, v: S, w: S, t: S)
    ensures
        ({
            let uw = u.spec_times(w);
            let ut = u.spec_times(t);
            let vw = v.spec_times(w);
            let vt = v.spec_times(t);
            &&& u.spec_plus(v).spec_times(w.spec_plus(t)) == uw.spec_plus(vw).spec_plus(
                ut,
            ).spec_plus(vt)
            &&& u.spec_plus(v).spec_times(w.spec_minus(t)) == uw.spec_plus(vw).spec_minus(
                ut,
            ).spec_minus(vt)
            &&& u.spec_minus(v).spec_times(w.spec_plus(t)) == uw.spec_minus(vw).spec_plus(
                ut,
            ).spec_minus(vt)
            &&& u.spec_minus(v).spec_times(w.spec_minus(t)) == uw.spec_minus(vw).spec_minus(
                ut,
            ).spec_plus(vt)
        }),
{
    let uw = u.spec_times(w);
    let ut = u.spec_times(t);
    let vw = v.spec_times(w);
    let vt = v.spec_times(t);
    lemma_distributes(w, t, u.spec_plus(v));
    lemma_distributes(w, t, u.spec_minus(v));
    lemma_distributes(u, v, w);
    lemma_distributes(u, v, t);
    lemma_regroups(uw.spec_plus(vw), ut, vt);
    lemma_regroups(uw.spec_minus(vw), ut, vt);
}

/// The minor that belongs to an entry on the diagonal of a rotation is that entry.
proof fn lemma_minor_on_diagonal<S: Ring>(a: S, b: S, c: S, d: S, p: S, q: S)
    requires
        is_turn(a, b, c, d, p, q),
    ensures
        kept(b, p, q).spec_times(kept(c, p, q)).spec_minus(
            mixed(b, c, a, d, q).spec_times(mixed_back(b, c, a, d, q)),
        ) == kept(a, p, q),
{
    broadcast use {group_formal_sum, group_formal_product};

    let aaq = a.spec_times(a).spec_times(q);
    let bbq = b.spec_times(b).spec_times(q);
    let ccq = c.spec_times(c).spec_times(q);
    let bcq = b.spec_times(c).spec_times(q);
    let ad = a.spec_times(d);
    let pp = p.spec_times(p);
    let (pa, pb, pc) = (p.spec_times(aaq), p.spec_times(bbq), p.spec_times(ccq));
    lemma_four_products(p, bbq, p, ccq);
    lemma_four_products(bcq, ad, bcq, ad);
    S::times_commutes(bbq, p);
    S::times_commutes(bcq, ad);
    let u = bbq.spec_times(ccq);
    let v = bcq.spec_times(ad);
    lemma_same_factors(three_of(b, b, q), three_of(c, c, q), three_of(b, c, q), three_of(b, c, q));
    assert(bcq.spec_times(bcq) == u);
    let adad = ad.spec_times(ad);
    lemma_same_factors(two_of(a, d), two_of(a, d), two_of(a, a), two_of(d, d));
    lemma_times_dd(a.spec_times(a), d, p, q);
    assert(adad == aaq.spec_plus(pa));
    // the difference of both products
    let first = pp.spec_plus(pb).spec_plus(pc).spec_plus(u);
    let s2 = u.spec_plus(v);
    lemma_regroups(first, s2.spec_minus(v), adad);
    lemma_regroups(first, s2, v);
    lemma_regroups(first, u, v);
    let without = first.spec_minus(u).spec_minus(v).spec_plus(v);
    lemma_regroups(without, aaq, pa);
    lemma_zero_plus(pp);
    let n = FormalSum::<S>::none();
    let x = n.and(pp).and(pb).and(pc).and(u).less(u).less(v).and(v).and(aaq).and(pa);
    assert(x.value() == without.spec_plus(aaq).spec_plus(pa));
    // all shares of the axis together
    lemma_shares(a, b, c, q);
    lemma_distributes(aaq.spec_plus(bbq), ccq, p);
    lemma_distributes(aaq, bbq, p);
    lemma_regroups(pp, pa.spec_plus(pb), pc);
    lemma_regroups(pp, pa, pb);
    let y = n.and(pp).and(pa).and(pb).and(pc).and(aaq);
    S::times_distributes(p, p, q);
    S::times_one(p);
    assert(y.value() == p.spec_plus(aaq));
    assert(x.added.add(y.subtracted) =~= y.added.add(x.subtracted));
    lemma_same(x, y);
}

/// A share of every part of the axis: `t * (a * a * q)` and the same with `b` and `c`
/// add up to `t * q`.
proof fn lemma_shared<S: Ring>(t: S, a: S, b: S, c: S, q: S)
    requires
        squared_length(a, b, c) == S::spec_one(),
    ensures
        t.spec_times(a.spec_times(a).spec_times(q)).spec_plus(
            t.spec_times(b.spec_times(b).spec_times(q)),
        ).spec_plus(t.spec_times(c.spec_times(c).spec_times(q))) == t.spec_times(q),
{
    let aaq = a.spec_times(a).spec_times(q);
    let bbq = b.spec_times(b).spec_times(q);
    let ccq = c.spec_times(c).spec_times(q);
    lemma_shares(a, b, c, q);
    lemma_distributes(aaq.spec_plus(bbq), ccq, t);
    lemma_distributes(aaq, bbq, t);
}

/// The minor that belongs to the entry after one on the diagonal is that entry.
proof fn lemma_minor_after_diagonal<S: Ring>(a: S, b: S, c: S, d: S, p: S, q: S)
    requires
        is_turn(a, b, c, d, p, q),
    ensures
        mixed(b, c, a, d, q).spec_times(mixed(a, c, b, d, q)).spec_minus(
            mixed_back(a, b, c, d, q).spec_times(kept(c, p, q)),
        ) == mixed(a, b, c, d, q),
{
    broadcast use {group_formal_sum, group_formal_product};

    let aaq = a.spec_times(a).spec_times(q);
    let bbq = b.spec_times(b).spec_times(q);
    let ccq = c.spec_times(c).spec_times(q);
    let abq = a.spec_times(b).spec_times(q);
    let acq = a.spec_times(c).spec_times(q);
    let bcq = b.spec_times(c).spec_times(q);
    let (ad, bd, cd) = (a.spec_times(d), b.spec_times(d), c.spec_times(d));
    lemma_four_products(bcq, ad, acq, bd);
    lemma_four_products(abq, cd, p, ccq);
    let (ta, tb, tc) = (cd.spec_times(aaq), cd.spec_times(bbq), cd.spec_times(ccq));
    lemma_same_factors(two_of(a, d), three_of(a, c, q), two_of(c, d), three_of(a, a, q));
    lemma_same_factors(three_of(b, c, q), two_of(b, d), two_of(c, d), three_of(b, b, q));
    assert(ad.spec_times(acq) == ta && bcq.spec_times(bd) == tb);
    let u = bcq.spec_times(acq);
    lemma_same_factors(three_of(b, c, q), three_of(a, c, q), three_of(a, b, q), three_of(c, c, q));
    assert(abq.spec_times(ccq) == u);
    let pabq = p.spec_times(abq);
    S::times_commutes(p, abq);
    let adbd = ad.spec_times(bd);
    lemma_same_factors(two_of(a, d), two_of(b, d), two_of(a, b), two_of(d, d));
    lemma_times_dd(a.spec_times(b), d, p, q);
    assert(adbd == abq.spec_plus(pabq));
    // the difference of both products
    let cdp = cd.spec_times(p);
    let first = u.spec_plus(ta).spec_plus(tb).spec_plus(adbd);
    let flat = u.spec_plus(ta).spec_plus(tb).spec_plus(abq).spec_plus(pabq);
    lemma_regroups(u.spec_plus(ta).spec_plus(tb), abq, pabq);
    lemma_regroups(first, pabq.spec_minus(cdp).spec_plus(u), tc);
    lemma_regroups(first, pabq.spec_minus(cdp), u);
    lemma_regroups(first, pabq, cdp);
    lemma_zero_plus(u);
    let n = FormalSum::<S>::none();
    let x = n.and(u).and(ta).and(tb).and(abq).and(pabq).less(pabq).and(cdp).less(u).and(tc);
    assert(x.value() == flat.spec_minus(pabq).spec_plus(cdp).spec_minus(u).spec_plus(tc));
    // all shares of the axis together
    lemma_shared(cd, a, b, c, q);
    lemma_regroups(cdp, ta.spec_plus(tb), tc);
    lemma_regroups(cdp, ta, tb);
    S::times_distributes(cd, p, q);
    S::times_one(cd);
    lemma_zero_plus(cdp);
    let y = n.and(cdp).and(ta).and(tb).and(tc).and(abq);
    S::plus_commutes(cd, abq);
    assert(y.value() == cd.spec_plus(abq));
    assert(x.added.add(y.subtracted) =~= y.added.add(x.subtracted));
    lemma_same(x, y);
}

/// The minor that belongs to the entry before one on the diagonal is that entry.
proof fn lemma_minor_before_diagonal<S: Ring>(a: S, b: S, c: S, d: S, p: S, q: S)
    requires
        is_turn(a, b, c, d, p, q),
    ensures
        mixed_back(a, b, c, d, q).spec_times(mixed_back(b, c, a, d, q)).spec_minus(
            kept(b, p, q).spec_times(mixed(a, c, b, d, q)),
        ) == mixed_back(a, c, b, d, q),
{
    broadcast use {group_formal_sum, group_formal_product};

    let aaq = a.spec_times(a).spec_times(q);
    let bbq = b.spec_times(b).spec_times(q);
    let ccq = c.spec_times(c).spec_times(q);
    let abq = a.spec_times(b).spec_times(q);
    let acq = a.spec_times(c).spec_times(q);
    let bcq = b.spec_times(c).spec_times(q);
    let (ad, bd, cd) = (a.spec_times(d), b.spec_times(d), c.spec_times(d));
    lemma_four_products(abq, cd, bcq, ad);
    lemma_four_products(p, bbq, acq, bd);
    let (ta, tb, tc) = (bd.spec_times(aaq), bd.spec_times(bbq), bd.spec_times(ccq));
    lemma_same_factors(three_of(a, b, q), two_of(a, d), two_of(b, d), three_of(a, a, q));
    lemma_same_factors(two_of(c, d), three_of(b, c, q), two_of(b, d), three_of(c, c, q));
    S::times_commutes(bbq, bd);
    assert(abq.spec_times(ad) == ta && cd.spec_times(bcq) == tc && bbq.spec_times(bd) == tb);
    let u = abq.spec_times(bcq);
    lemma_same_factors(three_of(a, b, q), three_of(b, c, q), three_of(b, b, q), three_of(a, c, q));
    assert(bbq.spec_times(acq) == u);
    let pacq = p.spec_times(acq);
    let cdad = cd.spec_times(ad);
    lemma_same_factors(two_of(c, d), two_of(a, d), two_of(a, c), two_of(d, d));
    lemma_times_dd(a.spec_times(c), d, p, q);
    assert(cdad == acq.spec_plus(pacq));
    // the difference of both products
    let bdp = bd.spec_times(p);
    S::times_commutes(p, bd);
    let start = u.spec_minus(tc).spec_minus(ta);
    lemma_regroups(start, acq, pacq);
    let first = start.spec_plus(acq).spec_plus(pacq);
    lemma_regroups(first, pacq.spec_plus(u).spec_plus(bdp), tb);
    lemma_regroups(first, pacq.spec_plus(u), bdp);
    lemma_regroups(first, pacq, u);
    lemma_zero_plus(u);
    let n = FormalSum::<S>::none();
    let x = n.and(u).less(tc).less(ta).and(acq).and(pacq).less(pacq).less(u).less(bdp).less(tb);
    assert(x.value() == first.spec_minus(pacq).spec_minus(u).spec_minus(bdp).spec_minus(tb));
    // all shares of the axis together
    lemma_shared(bd, a, b, c, q);
    let bdq = bd.spec_times(q);
    S::times_distributes(bd, p, q);
    S::times_one(bd);
    lemma_regroups(acq, bdp, bdq);
    lemma_regroups(acq.spec_minus(bdp), ta.spec_plus(tb), tc);
    lemma_regroups(acq.spec_minus(bdp), ta, tb);
    lemma_zero_plus(acq);
    let y = n.and(acq).less(bdp).less(ta).less(tb).less(tc);
    assert(y.value() == acq.spec_minus(bd));
    assert(x.added.add(y.subtracted) =~= y.added.add(x.subtracted));
    lemma_same(x, y);
}

/// The numbers of a rotation by twice the angle with the given sine and cosine.
pub open spec fn turn_sine<S: Scalar>(sin: S, cos: S) -> S {
    S::spec_two().spec_times(sin.spec_times(cos))
}

pub open spec fn turn_share<S: Scalar>(sin: S) -> S {
    S::spec_two().spec_times(sin.spec_times(sin))
}

proof fn lemma_turn_numbers<S: Ring>(x: S, y: S, z: S, sin: S, cos: S)
    requires
        squared_length(x, y, z) == S::spec_one(),
        on_circle(sin, cos),
    ensures
        is_turn(
            x,
            y,
            z,
            turn_sine(sin, cos),
            S::spec_one().spec_minus(turn_share(sin)),
            turn_share(sin),
        ),
{
    let one = S::spec_one();
    let two = S::spec_two();
    let ss = sin.spec_times(sin);
    let cc = cos.spec_times(cos);
    let sc = sin.spec_times(cos);
    let d = two.spec_times(sc);
    let q = two.spec_times(ss);
    let p = one.spec_minus(q);
    lemma_minus_plus(one, q);
    // the square of the sine
    lemma_times_interchanges(two, sc, two, sc);
    lemma_times_interchanges(two, ss, two, cc);
    lemma_times_interchanges(sin, cos, sin, cos);
    assert(d.spec_times(d) == q.spec_times(two.spec_times(cc)));
    // twice the square of the cosine is 1 and `p`
    lemma_distributes(ss, cc, two);
    S::times_one(two);
    S::two_is_one_and_one();
    S::plus_commutes(q, two.spec_times(cc));
    lemma_regroups(two.spec_times(cc), q, q);
    lemma_negated(q, q);
    S::plus_zero(two.spec_times(cc));
    lemma_regroups(one, one, q);
    assert(two.spec_times(cc) == one.spec_plus(p));
    lemma_distributes(one, p, q);
    S::times_one(q);
    S::times_commutes(p, q);
}

/// `two * (m * t)` is `m * (two * t)`.
proof fn lemma_doubled<S: Ring>(m: S, t: S)
    ensures
        S::spec_two().spec_times(m.spec_times(t)) == m.spec_times(S::spec_two().spec_times(t)),
{
    let two = S::spec_two();
    S::times_associates(two, m, t);
    S::times_commutes(two, m);
    S::times_associates(m, two, t);
}

/// An entry on the diagonal, by the part `aa` of the axis and the rest of it.
proof fn lemma_diagonal_entry<S: Ring>(aa: S, rest: S, sq: S)
    requires
        rest.spec_plus(aa) == S::spec_one(),
    ensures
        ({
            let one = S::spec_one();
            let q = S::spec_two().spec_times(sq);
            one.spec_minus(S::spec_two().spec_times(rest).spec_times(sq)) == one.spec_minus(
                q,
            ).spec_plus(aa.spec_times(q))
        }),
{
    let one = S::spec_one();
    let two = S::spec_two();
    let q = two.spec_times(sq);
    let rq = rest.spec_times(q);
    let aq = aa.spec_times(q);
    S::times_commutes(two, rest);
    S::times_associates(rest, two, sq);
    lemma_distributes(rest, aa, q);
    lemma_one_times(q);
    lemma_regroups(one, rq, aq);
    lemma_minus_plus(one.spec_minus(rq), aq);
}

/// An entry beside the diagonal.
pub(crate) proof fn lemma_mixed_entry<S: Ring>(ab: S, c: S, sq: S, sc: S)
    ensures
        ({
            let two = S::spec_two();
            let u = ab.spec_times(sq);
            let v = c.spec_times(sc);
            let uu = ab.spec_times(two.spec_times(sq));
            let vv = c.spec_times(two.spec_times(sc));
            &&& two.spec_times(u.spec_plus(v)) == uu.spec_plus(vv)
            &&& two.spec_times(u.spec_minus(v)) == uu.spec_minus(vv)
        }),
{
    lemma_distributes(ab.spec_times(sq), c.spec_times(sc), S::spec_two());
    lemma_doubled(ab, sq);
    lemma_doubled(c, sc);
}

/// The entries of a rotation about a normalized axis.
pub open spec fn has_turn_entries<S: Scalar>(
    m: ComputedTransform3D<S>,
    x: S,
    y: S,
    z: S,
    d: S,
    p: S,
    q: S,
) -> bool {
    &&& m.at(0, 0) == kept(x, p, q)
    &&& m.at(0, 1) == mixed(x, y, z, d, q)
    &&& m.at(0, 2) == mixed_back(x, z, y, d, q)
    &&& m.at(1, 0) == mixed_back(x, y, z, d, q)
    &&& m.at(1, 1) == kept(y, p, q)
    &&& m.at(1, 2) == mixed(y, z, x, d, q)
    &&& m.at(2, 0) == mixed(x, z, y, d, q)
    &&& m.at(2, 1) == mixed_back(y, z, x, d, q)
    &&& m.at(2, 2) == kept(z, p, q)
}

/// Whether the last row and the last column of a matrix are those of the identity.
pub open spec fn has_plain_border<S: Scalar>(m: ComputedTransform3D<S>) -> bool {
    &&& m.at(0, 3) == S::spec_zero()
    &&& m.at(1, 3) == S::spec_zero()
    &&& m.at(2, 3) == S::spec_zero()
    &&& m.at(3, 0) == S::spec_zero()
    &&& m.at(3, 1) == S::spec_zero()
    &&& m.at(3, 2) == S::spec_zero()
    &&& m.at(3, 3) == S::spec_one()
}

proof fn lemma_rotation_entries<S: Ring>(x: S, y: S, z: S, sin: S, cos: S)
    requires
        squared_length(x, y, z) == S::spec_one(),
    ensures
        has_turn_entries(
            ComputedTransform3D::spec_rotation_by(x, y, z, sin, cos),
            x,
            y,
            z,
            turn_sine(sin, cos),
            S::spec_one().spec_minus(turn_share(sin)),
            turn_share(sin),
        ),
        has_plain_border(ComputedTransform3D::spec_rotation_by(x, y, z, sin, cos)),
{
    let xx = x.spec_times(x);
    let yy = y.spec_times(y);
    let zz = z.spec_times(z);
    let sq = sin.spec_times(sin);
    let sc = sin.spec_times(cos);
    S::plus_associates(xx, yy, zz);
    S::plus_commutes(xx, yy.spec_plus(zz));
    S::plus_commutes(yy, zz);
    S::plus_associates(xx, zz, yy);
    lemma_diagonal_entry(xx, yy.spec_plus(zz), sq);
    lemma_diagonal_entry(yy, xx.spec_plus(zz), sq);
    lemma_diagonal_entry(zz, xx.spec_plus(yy), sq);
    lemma_mixed_entry(x.spec_times(y), z, sq, sc);
    lemma_mixed_entry(x.spec_times(z), y, sq, sc);
    lemma_mixed_entry(y.spec_times(z), x, sq, sc);
}

/// A matrix with rows and columns exchanged.
pub open spec fn transposed<S: Scalar>(m: ComputedTransform3D<S>) -> ComputedTransform3D<S> {
    ComputedTransform3D::tabulate(|i: int, j: int| m.at(j, i))
}

/// The rotation in the other sense is the transposed matrix.
pub proof fn law_rotation_in_other_sense<S: Ring>(x: S, y: S, z: S, sin: S, cos: S)
    ensures
        ComputedTransform3D::spec_rotation_by(x, y, z, sin.spec_negated(), cos) == transposed(
            ComputedTransform3D::spec_rotation_by(x, y, z, sin, cos),
        ),
{
    let there = ComputedTransform3D::spec_rotation_by(x, y, z, sin, cos);
    let back = ComputedTransform3D::spec_rotation_by(x, y, z, sin.spec_negated(), cos);
    let sq = sin.spec_times(sin);
    let sc = sin.spec_times(cos);
    lemma_times_negated(sin, sin);
    lemma_times_negated(sin, cos);
    lemma_other_sense(x.spec_times(y).spec_times(sq), z, sc);
    lemma_other_sense(x.spec_times(z).spec_times(sq), y, sc);
    lemma_other_sense(y.spec_times(z).spec_times(sq), x, sc);
    lemma_tabulate_at(|i: int, j: int| there.at(j, i));
    assert forall|i: int, j: int| 0 <= i < 4 && 0 <= j < 4 implies back.at(i, j) == transposed(
        there,
    ).at(i, j) by {
        assert(i == 0 || i == 1 || i == 2 || i == 3);
        assert(j == 0 || j == 1 || j == 2 || j == 3);
    }
    lemma_matrix_equal(back, transposed(there));
}

proof fn lemma_other_sense<S: Ring>(u: S, c: S, sc: S)
    ensures
        u.spec_plus(c.spec_times(sc.spec_negated())) == u.spec_minus(c.spec_times(sc)),
        u.spec_minus(c.spec_times(sc.spec_negated())) == u.spec_plus(c.spec_times(sc)),
{
    let v = c.spec_times(sc);
    lemma_times_negated(c, sc);
    S::minus_adds_negated(u, v);
    S::minus_adds_negated(u, v.spec_negated());
    lemma_negated(v, v);
}

/// A dot product of four terms the last of which is 0.
proof fn lemma_dot4_plain<S: Ring>(a0: S, a1: S, a2: S, b0: S, b1: S, b2: S)
    ensures
        dot4(a0, a1, a2, S::spec_zero(), b0, b1, b2, S::spec_zero()) == dot3(
            a0,
            a1,
            a2,
            b0,
            b1,
            b2,
        ),
{
    lemma_times_zero(S::spec_zero());
    S::plus_zero(dot3(a0, a1, a2, b0, b1, b2));
}

/// Rows of a rotation: each has the length 1, and any two are perpendicular.
proof fn lemma_rows_of_rotation<S: Ring>(
    m: ComputedTransform3D<S>,
    x: S,
    y: S,
    z: S,
    d: S,
    p: S,
    q: S,
    i: int,
    j: int,
)
    requires
        is_turn(x, y, z, d, p, q),
        has_turn_entries(m, x, y, z, d, p, q),
        0 <= i < 3,
        0 <= j < 3,
    ensures
        dot3(m.at(i, 0), m.at(i, 1), m.at(i, 2), m.at(j, 0), m.at(j, 1), m.at(j, 2)) == if i == j {
            S::spec_one()
        } else {
            S::spec_zero()
        },
{
    lemma_turn_cycles(x, y, z, d, p, q);
    S::times_commutes(x, y);
    S::times_commutes(x, z);
    S::times_commutes(y, z);
    lemma_dot3_cycles(
        m.at(i, 0),
        m.at(i, 1),
        m.at(i, 2),
        m.at(j, 0),
        m.at(j, 1),
        m.at(j, 2),
    );
    lemma_dot3_commutes(
        m.at(i, 0),
        m.at(i, 1),
        m.at(i, 2),
        m.at(j, 0),
        m.at(j, 1),
        m.at(j, 2),
    );
    lemma_dot3_cycles(
        m.at(j, 0),
        m.at(j, 1),
        m.at(j, 2),
        m.at(i, 0),
        m.at(i, 1),
        m.at(i, 2),
    );
    if i == j {
        lemma_row_squared(x, y, z, d, p, q);
        lemma_row_squared(y, z, x, d, p, q);
        lemma_row_squared(z, x, y, d, p, q);
        assert(i == 0 || i == 1 || i == 2);
    } else {
        lemma_row_by_row(x, y, z, d, p, q);
        lemma_row_by_row(y, z, x, d, p, q);
        lemma_row_by_row(z, x, y, d, p, q);
        assert(i == 0 || i == 1 || i == 2);
        assert(j == 0 || j == 1 || j == 2);
    }
}

/// Turning about a normalized axis and turning back changes nothing, in either order.
pub proof fn law_rotation_turns_back<S: Ring>(x: S, y: S, z: S, sin: S, cos: S)
    requires
        squared_length(x, y, z) == S::spec_one(),
        on_circle(sin, cos),
    ensures
        ({
            let there = ComputedTransform3D::spec_rotation_by(x, y, z, sin, cos);
            let back = ComputedTransform3D::spec_rotation_by(x, y, z, sin.spec_negated(), cos);
            &&& there.spec_followed_by(back) == ComputedTransform3D::<S>::spec_identity()
            &&& back.spec_followed_by(there) == ComputedTransform3D::<S>::spec_identity()
        }),
{
    lemma_turns_back(x, y, z, sin, cos);
    lemma_times_negated(sin, sin);
    lemma_negated(sin, sin);
    lemma_turns_back(x, y, z, sin.spec_negated(), cos);
}

proof fn lemma_turns_back<S: Ring>(x: S, y: S, z: S, sin: S, cos: S)
    requires
        squared_length(x, y, z) == S::spec_one(),
        on_circle(sin, cos),
    ensures
        ComputedTransform3D::spec_rotation_by(x, y, z, sin, cos).spec_followed_by(
            ComputedTransform3D::spec_rotation_by(x, y, z, sin.spec_negated(), cos),
        ) == ComputedTransform3D::<S>::spec_identity(),
{
    let e = ComputedTransform3D::<S>::spec_identity();
    let m = ComputedTransform3D::spec_rotation_by(x, y, z, sin, cos);
    let back = ComputedTransform3D::spec_rotation_by(x, y, z, sin.spec_negated(), cos);
    let d = turn_sine(sin, cos);
    let q = turn_share(sin);
    let p = S::spec_one().spec_minus(q);
    lemma_turn_numbers(x, y, z, sin, cos);
    lemma_rotation_entries(x, y, z, sin, cos);
    law_rotation_in_other_sense(x, y, z, sin, cos);
    lemma_tabulate_at(|i: int, j: int| m.at(j, i));
    lemma_followed_by_at(m, back);
    assert forall|i: int, j: int| 0 <= i < 4 && 0 <= j < 4 implies m.spec_followed_by(back).at(i, j)
        == e.at(i, j) by {
        lemma_row_by_column(m, back, x, y, z, d, p, q, i, j);
    }
    lemma_matrix_equal(m.spec_followed_by(back), e);
}

proof fn lemma_row_by_column<S: Ring>(
    m: ComputedTransform3D<S>,
    back: ComputedTransform3D<S>,
    x: S,
    y: S,
    z: S,
    d: S,
    p: S,
    q: S,
    i: int,
    j: int,
)
    requires
        is_turn(x, y, z, d, p, q),
        has_turn_entries(m, x, y, z, d, p, q),
        has_plain_border(m),
        back == transposed(m),
        0 <= i < 4,
        0 <= j < 4,
    ensures
        dot4(
            m.at(i, 0),
            m.at(i, 1),
            m.at(i, 2),
            m.at(i, 3),
            back.at(0, j),
            back.at(1, j),
            back.at(2, j),
            back.at(3, j),
        ) == ComputedTransform3D::<S>::spec_identity().at(i, j),
{
    lemma_tabulate_at(|i: int, j: int| m.at(j, i));
    assert(back.at(0, j) == m.at(j, 0) && back.at(1, j) == m.at(j, 1) && back.at(2, j) == m.at(j, 2)
        && back.at(3, j) == m.at(j, 3));
    assert(i == 0 || i == 1 || i == 2 || i == 3);
    assert(j == 0 || j == 1 || j == 2 || j == 3);
    if i < 3 && j < 3 {
        lemma_dot4_plain(
            m.at(i, 0),
            m.at(i, 1),
            m.at(i, 2),
            m.at(j, 0),
            m.at(j, 1),
            m.at(j, 2),
        );
        lemma_rows_of_rotation(m, x, y, z, d, p, q, i, j);
    } else {
        lemma_dot4_unit(m.at(j, 0), m.at(j, 1), m.at(j, 2), m.at(j, 3));
        lemma_dot4_unit(m.at(i, 0), m.at(i, 1), m.at(i, 2), m.at(i, 3));
    }
}

/// A rotation leaves its normalized axis in place.
pub proof fn law_rotation_keeps_its_axis<S: Ring>(x: S, y: S, z: S, sin: S, cos: S)
    requires
        squared_length(x, y, z) == S::spec_one(),
        on_circle(sin, cos),
    ensures
        ({
            let m = ComputedTransform3D::spec_rotation_by(x, y, z, sin, cos);
            let one = S::spec_one();
            &&& dot4(x, y, z, one, m.at(0, 0), m.at(1, 0), m.at(2, 0), m.at(3, 0)) == x
            &&& dot4(x, y, z, one, m.at(0, 1), m.at(1, 1), m.at(2, 1), m.at(3, 1)) == y
            &&& dot4(x, y, z, one, m.at(0, 2), m.at(1, 2), m.at(2, 2), m.at(3, 2)) == z
            &&& dot4(x, y, z, one, m.at(0, 3), m.at(1, 3), m.at(2, 3), m.at(3, 3)) == one
        }),
{
    let m = ComputedTransform3D::spec_rotation_by(x, y, z, sin, cos);
    let back = ComputedTransform3D::spec_rotation_by(x, y, z, sin.spec_negated(), cos);
    let d = turn_sine(sin.spec_negated(), cos);
    let q = turn_share(sin.spec_negated());
    let p = S::spec_one().spec_minus(q);
    // the columns are the rows of the rotation in the other sense
    lemma_times_negated(sin, sin);
    lemma_turn_numbers(x, y, z, sin.spec_negated(), cos);
    lemma_rotation_entries(x, y, z, sin.spec_negated(), cos);
    law_rotation_in_other_sense(x, y, z, sin, cos);
    lemma_tabulate_at(|i: int, j: int| m.at(j, i));
    assert(forall|i: int, j: int| 0 <= i < 4 && 0 <= j < 4 ==> m.at(i, j) == back.at(j, i));
    lemma_turn_cycles(x, y, z, d, p, q);
    S::times_commutes(x, y);
    S::times_commutes(x, z);
    S::times_commutes(y, z);
    lemma_row_of_axis(x, y, z, d, p, q);
    lemma_row_of_axis(y, z, x, d, p, q);
    lemma_row_of_axis(z, x, y, d, p, q);
    lemma_axis_by_row(back.at(0, 0), back.at(0, 1), back.at(0, 2), x, y, z);
    lemma_axis_by_row(back.at(1, 0), back.at(1, 1), back.at(1, 2), x, y, z);
    lemma_axis_by_row(back.at(2, 0), back.at(2, 1), back.at(2, 2), x, y, z);
    lemma_dot4_unit(x, y, z, S::spec_one());
}

/// The axis, with weight 1, applied to the entries of a row without the last.
proof fn lemma_axis_by_row<S: Ring>(r0: S, r1: S, r2: S, x: S, y: S, z: S)
    ensures
        dot4(x, y, z, S::spec_one(), r0, r1, r2, S::spec_zero()) == dot3(r0, r1, r2, x, y, z),
        dot3(r0, r1, r2, x, y, z) == dot3(r1, r2, r0, y, z, x),
        dot3(r0, r1, r2, x, y, z) == dot3(r2, r0, r1, z, x, y),
{
    lemma_dot3_commutes(x, y, z, r0, r1, r2);
    lemma_dot3_cycles(r0, r1, r2, x, y, z);
    lemma_times_zero(S::spec_one());
    S::plus_zero(dot3(x, y, z, r0, r1, r2));
}

/// The determinant of a rotation about a normalized axis is 1.
pub proof fn law_determinant_of_rotation<S: Ring>(x: S, y: S, z: S, sin: S, cos: S)
    requires
        squared_length(x, y, z) == S::spec_one(),
        on_circle(sin, cos),
    ensures
        ComputedTransform3D::spec_rotation_by(x, y, z, sin, cos).spec_determinant()
            == S::spec_one(),
{
    let m = ComputedTransform3D::spec_rotation_by(x, y, z, sin, cos);
    let d = turn_sine(sin, cos);
    let q = turn_share(sin);
    let p = S::spec_one().spec_minus(q);
    lemma_turn_numbers(x, y, z, sin, cos);
    lemma_rotation_entries(x, y, z, sin, cos);
    lemma_determinant_by_minors(m);
    S::times_commutes(x, z);
    lemma_minor_on_diagonal(x, y, z, d, p, q);
    lemma_minor_after_diagonal(x, y, z, d, p, q);
    lemma_minor_before_diagonal(x, y, z, d, p, q);
    lemma_row_squared(x, y, z, d, p, q);
}

/// The determinant of a matrix with a plain border, by the minors of its first row.
pub(crate) proof fn lemma_determinant_by_minors<S: Ring>(m: ComputedTransform3D<S>)
    requires
        has_plain_border(m),
    ensures
        m.spec_determinant() == dot3(
            m.at(0, 0),
            m.at(0, 1),
            m.at(0, 2),
            m.at(1, 1).spec_times(m.at(2, 2)).spec_minus(m.at(1, 2).spec_times(m.at(2, 1))),
            m.at(1, 2).spec_times(m.at(2, 0)).spec_minus(m.at(1, 0).spec_times(m.at(2, 2))),
            m.at(1, 0).spec_times(m.at(2, 1)).spec_minus(m.at(1, 1).spec_times(m.at(2, 0))),
        ),
{
    broadcast use group_formal_sum;

    let (r0, r1, r2, r3) = (row(m, 0), row(m, 1), row(m, 2), row(m, 3));
    let zero = S::spec_zero();
    lemma_determinant(m);
    lemma_expansion_fourth(r0, r1, r2, r3);
    // all of the last row but its end is 0
    let inner = minor(r0, r1, r2, 0, 1, 2);
    lemma_times_zero(minor(r0, r1, r2, 1, 2, 3));
    lemma_times_zero(minor(r0, r1, r2, 0, 2, 3));
    lemma_times_zero(minor(r0, r1, r2, 0, 1, 3));
    lemma_one_times(inner);
    lemma_negated(zero, zero);
    S::plus_zero(zero);
    lemma_negated(inner, zero);
    lemma_negated(determinant_of_rows(m), zero);
    assert(determinant_of_rows(m) == inner);
    reveal(minor);
    let (a, b, c) = (m.at(0, 0), m.at(0, 1), m.at(0, 2));
    let t0 = times3(a, m.at(1, 1), m.at(2, 2));
    let t1 = times3(a, m.at(1, 2), m.at(2, 1));
    let t2 = times3(b, m.at(1, 0), m.at(2, 2));
    let t3 = times3(b, m.at(1, 2), m.at(2, 0));
    let t4 = times3(c, m.at(1, 0), m.at(2, 1));
    let t5 = times3(c, m.at(1, 1), m.at(2, 0));
    lemma_expands(a, m.at(1, 1), m.at(2, 2), m.at(1, 2), m.at(2, 1));
    lemma_expands(b, m.at(1, 2), m.at(2, 0), m.at(1, 0), m.at(2, 2));
    lemma_expands(c, m.at(1, 0), m.at(2, 1), m.at(1, 1), m.at(2, 0));
    let s = t0.spec_minus(t1);
    lemma_regroups(s, t3, t2);
    lemma_regroups(s.spec_plus(t3).spec_minus(t2), t4, t5);
    lemma_zero_plus(t0);
    let n = FormalSum::<S>::none();
    let u = n.and(t0).less(t1).less(t2).and(t3).and(t4).less(t5);
    let v = n.and(t0).less(t1).and(t3).less(t2).and(t4).less(t5);
    assert(u.value() == six(t0, t1, t2, t3, t4, t5));
    assert(v.value() == s.spec_plus(t3).spec_minus(t2).spec_plus(t4).spec_minus(t5));
    assert(u.added =~= v.added);
    assert(u.subtracted =~= v.subtracted);
    lemma_same(u, v);
}

proof fn lemma_expands<S: Ring>(a: S, e: S, f: S, g: S, h: S)
    ensures
        a.spec_times(e.spec_times(f).spec_minus(g.spec_times(h))) == times3(a, e, f).spec_minus(
            times3(a, g, h),
        ),
{
    lemma_distributes(e.spec_times(f), g.spec_times(h), a);
    S::times_associates(a, e, f);
    S::times_associates(a, g, h);
}

/// Half of the negated angle is the negated half, and half of no angle is none.
proof fn lemma_half_angles<S: Field>(theta: S)
    ensures
        theta.spec_negated().spec_over(S::spec_two()) == theta.spec_over(
            S::spec_two(),
        ).spec_negated(),
        S::spec_zero().spec_over(S::spec_two()) == S::spec_zero(),
{
    let two = S::spec_two();
    let h = theta.spec_over(two);
    S::divisors_are_not_zero();
    S::over_undoes_times(theta, two);
    S::over_undoes_times(theta.spec_negated(), two);
    S::over_undoes_times(S::spec_zero(), two);
    lemma_times_negated(h, two);
    lemma_times_zero(two);
    lemma_factor_cancels(theta.spec_negated().spec_over(two), h.spec_negated(), two);
    lemma_factor_cancels(S::spec_zero().spec_over(two), S::spec_zero(), two);
}

/// The rotation by the negated angle is the transposed matrix.
pub proof fn law_new_rotation_by_negated_angle<S: Angles>(x: S, y: S, z: S, theta: S)
    ensures
        ComputedTransform3D::spec_new_rotation(x, y, z, theta.spec_negated()) == transposed(
            ComputedTransform3D::spec_new_rotation(x, y, z, theta),
        ),
{
    let h = theta.spec_over(S::spec_two());
    lemma_half_angles(theta);
    S::sine_is_odd(h);
    S::cosine_is_even(h);
    law_rotation_in_other_sense(x, y, z, h.spec_sin(), h.spec_cos());
}

/// The rotation by no angle changes nothing.
pub proof fn law_new_rotation_by_no_angle<S: Angles>(x: S, y: S, z: S)
    ensures
        ComputedTransform3D::spec_new_rotation(x, y, z, S::spec_zero()) == ComputedTransform3D::<
            S,
        >::spec_identity(),
{
    let zero = S::spec_zero();
    let m = ComputedTransform3D::spec_new_rotation(x, y, z, zero);
    let e = ComputedTransform3D::<S>::spec_identity();
    lemma_half_angles(zero);
    S::angle_zero();
    lemma_times_zero(zero);
    lemma_times_zero(S::spec_one());
    lemma_times_zero(S::spec_two());
    lemma_times_zero(x);
    lemma_times_zero(y);
    lemma_times_zero(z);
    lemma_times_zero(x.spec_times(y));
    lemma_times_zero(x.spec_times(z));
    lemma_times_zero(y.spec_times(z));
    let (xx, yy, zz) = (x.spec_times(x), y.spec_times(y), z.spec_times(z));
    lemma_times_zero(S::spec_two().spec_times(yy.spec_plus(zz)));
    lemma_times_zero(S::spec_two().spec_times(xx.spec_plus(zz)));
    lemma_times_zero(S::spec_two().spec_times(xx.spec_plus(yy)));
    S::plus_zero(zero);
    lemma_negated(zero, zero);
    lemma_negated(S::spec_one(), zero);
    assert forall|i: int, j: int| 0 <= i < 4 && 0 <= j < 4 implies m.at(i, j) == e.at(i, j) by {
        assert(i == 0 || i == 1 || i == 2 || i == 3);
        assert(j == 0 || j == 1 || j == 2 || j == 3);
    }
    lemma_matrix_equal(m, e);
}

/// The rotation by any angle about a normalized axis is undone by the rotation by the
/// negated angle, has the determinant 1, and leaves its axis in place.
pub proof fn law_new_rotation<S: Angles>(x: S, y: S, z: S, theta: S)
    requires
        squared_length(x, y, z) == S::spec_one(),
    ensures
        ({
            let m = ComputedTransform3D::spec_new_rotation(x, y, z, theta);
            let back = ComputedTransform3D::spec_new_rotation(x, y, z, theta.spec_negated());
            let one = S::spec_one();
            &&& m.spec_followed_by(back) == ComputedTransform3D::<S>::spec_identity()
            &&& back.spec_followed_by(m) == ComputedTransform3D::<S>::spec_identity()
            &&& m.spec_determinant() == one
            &&& dot4(x, y, z, one, m.at(0, 0), m.at(1, 0), m.at(2, 0), m.at(3, 0)) == x
            &&& dot4(x, y, z, one, m.at(0, 1), m.at(1, 1), m.at(2, 1), m.at(3, 1)) == y
            &&& dot4(x, y, z, one, m.at(0, 2), m.at(1, 2), m.at(2, 2), m.at(3, 2)) == z
            &&& dot4(x, y, z, one, m.at(0, 3), m.at(1, 3), m.at(2, 3), m.at(3, 3)) == one
        }),
{
    let h = theta.spec_over(S::spec_two());
    lemma_half_angles(theta);
    S::sine_is_odd(h);
    S::cosine_is_even(h);
    S::squares_add_up(h);
    law_rotation_turns_back(x, y, z, h.spec_sin(), h.spec_cos());
    law_determinant_of_rotation(x, y, z, h.spec_sin(), h.spec_cos());
    law_rotation_keeps_its_axis(x, y, z, h.spec_sin(), h.spec_cos());
}

/// Half of the angle that a rotation turns by.
pub open spec fn half_theta<S: Scalar>(degrees: S, rotation_mode: RotationMode) -> S {
    ComputedTransform3D::spec_theta(degrees, rotation_mode).spec_over(S::spec_two())
}

/// The two modes turn in opposite senses.
proof fn lemma_modes_oppose<S: Angles>(degrees: S)
    ensures
        ({
            let hit = half_theta(degrees, RotationMode::ForHitTesting);
            let render = half_theta(degrees, RotationMode::ForWebRender);
            &&& render.spec_sin() == hit.spec_sin().spec_negated()
            &&& render.spec_cos() == hit.spec_cos()
        }),
{
    let two = S::spec_two();
    let turn = two.spec_times(S::spec_pi());
    let angle = degrees.spec_to_radians();
    let hit = half_theta(degrees, RotationMode::ForHitTesting);
    let render = half_theta(degrees, RotationMode::ForWebRender);
    S::divisors_are_not_zero();
    S::over_undoes_times(turn.spec_minus(angle), two);
    S::radians_of_negated(degrees);
    S::over_undoes_times(turn.spec_minus(angle.spec_negated()), two);
    // the other half is a full turn less this half
    let other = hit.spec_negated().spec_plus(turn);
    lemma_distributes(hit.spec_negated(), turn, two);
    lemma_times_negated(hit, two);
    lemma_negated(turn, angle);
    S::two_is_one_and_one();
    lemma_distributes(S::spec_one(), S::spec_one(), turn);
    lemma_one_times(turn);
    S::times_commutes(two, turn);
    lemma_regroups(angle.spec_minus(turn), turn, turn);
    lemma_minus_plus(angle, turn);
    S::plus_commutes(angle, turn);
    S::minus_adds_negated(turn, angle.spec_negated());
    lemma_negated(angle, angle);
    assert(other.spec_times(two) == turn.spec_plus(angle));
    lemma_factor_cancels(render, other, two);
    S::full_turn(hit.spec_negated());
    S::sine_is_odd(hit);
    S::cosine_is_even(hit);
}

/// The matrix of a rotation that is made for the renderer is the inverted one of the
/// rotation that is made for hit testing: about a normalized axis, by any angle, one
/// followed by the other changes nothing.
pub proof fn law_rotation_modes_are_inverse<S: Angles>(
    rotation_origin: (S, S),
    degrees: S,
    axis_x: S,
    axis_y: S,
    axis_z: S,
)
    requires
        squared_length(axis_x, axis_y, axis_z) == S::spec_one(),
    ensures
        ({
            let hit = ComputedTransform3D::spec_make_rotation(
                rotation_origin,
                degrees,
                axis_x,
                axis_y,
                axis_z,
                RotationMode::ForHitTesting,
            );
            let render = ComputedTransform3D::spec_make_rotation(
                rotation_origin,
                degrees,
                axis_x,
                axis_y,
                axis_z,
                RotationMode::ForWebRender,
            );
            &&& hit.spec_followed_by(render) == ComputedTransform3D::<S>::spec_identity()
            &&& render.spec_followed_by(hit) == ComputedTransform3D::<S>::spec_identity()
        }),
{
    let (x, y) = rotation_origin;
    let zero = S::spec_zero();
    let hit = half_theta(degrees, RotationMode::ForHitTesting);
    let pre = ComputedTransform3D::spec_new_translation(
        x.spec_negated(),
        y.spec_negated(),
        zero.spec_negated(),
    );
    let post = ComputedTransform3D::spec_new_translation(x, y, zero);
    let there = ComputedTransform3D::spec_rotation_by(
        axis_x,
        axis_y,
        axis_z,
        hit.spec_sin(),
        hit.spec_cos(),
    );
    let back = ComputedTransform3D::spec_rotation_by(
        axis_x,
        axis_y,
        axis_z,
        hit.spec_sin().spec_negated(),
        hit.spec_cos(),
    );
    lemma_modes_oppose(degrees);
    law_identity_is_neutral(there);
    law_identity_is_neutral(back);
    S::squares_add_up(hit);
    law_rotation_turns_back(axis_x, axis_y, axis_z, hit.spec_sin(), hit.spec_cos());
    lemma_there_and_back(x, y);
    lemma_unwind(pre, there, post, back);
    lemma_unwind(pre, back, post, there);
}

/// A translation and the one by the negated offset cancel each other.
proof fn lemma_there_and_back<S: Ring>(x: S, y: S)
    ensures
        ({
            let pre = ComputedTransform3D::spec_new_translation(
                x.spec_negated(),
                y.spec_negated(),
                S::spec_zero().spec_negated(),
            );
            let post = ComputedTransform3D::spec_new_translation(x, y, S::spec_zero());
            &&& post.spec_followed_by(pre) == ComputedTransform3D::<S>::spec_identity()
            &&& pre.spec_followed_by(post) == ComputedTransform3D::<S>::spec_identity()
        }),
{
    let zero = S::spec_zero();
    let nx = x.spec_negated();
    let ny = y.spec_negated();
    let nz = zero.spec_negated();
    S::plus_negated(x);
    S::plus_negated(y);
    S::plus_negated(zero);
    S::plus_commutes(x, nx);
    S::plus_commutes(y, ny);
    S::plus_commutes(zero, nz);
    law_translations_add(x, y, zero, nx, ny, nz);
    law_translations_add(nx, ny, nz, x, y, zero);
}

/// What is combined in the middle and around it falls away from the inside out.
proof fn lemma_unwind<S: Ring>(
    pre: ComputedTransform3D<S>,
    there: ComputedTransform3D<S>,
    post: ComputedTransform3D<S>,
    back: ComputedTransform3D<S>,
)
    requires
        post.spec_followed_by(pre) == ComputedTransform3D::<S>::spec_identity(),
        pre.spec_followed_by(post) == ComputedTransform3D::<S>::spec_identity(),
        there.spec_followed_by(back) == ComputedTransform3D::<S>::spec_identity(),
    ensures
        pre.spec_followed_by(there).spec_followed_by(post).spec_followed_by(
            pre.spec_followed_by(back).spec_followed_by(post),
        ) == ComputedTransform3D::<S>::spec_identity(),
{
    let first = pre.spec_followed_by(there);
    let second = back.spec_followed_by(post);
    law_followed_by_is_associative(pre, back, post);
    law_followed_by_is_associative(first, post, pre.spec_followed_by(second));
    law_followed_by_is_associative(post, pre, second);
    law_identity_is_neutral(second);
    law_followed_by_is_associative(pre, there, second);
    law_followed_by_is_associative(there, back, post);
    law_identity_is_neutral(post);
}

} // verus!
