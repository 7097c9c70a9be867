//! Scalars whose arithmetic is exact.
use crate::scalar::Scalar;
use vstd::prelude::*;

verus! {

/// A scalar whose sums, differences and products obey the laws of a commutative ring,
/// as those of the real numbers and of whole numbers modulo any number do.
pub trait Ring: Scalar {
    proof fn plus_commutes(a: Self, b: Self)
        ensures
            a.spec_plus(b) == b.spec_plus(a),
    ;

    proof fn plus_associates(a: Self, b: Self, c: Self)
        ensures
            a.spec_plus(b).spec_plus(c) == a.spec_plus(b.spec_plus(c)),
    ;

    proof fn plus_zero(a: Self)
        ensures
            a.spec_plus(Self::spec_zero()) == a,
    ;

    proof fn plus_negated(a: Self)
        ensures
            a.spec_plus(a.spec_negated()) == Self::spec_zero(),
    ;

    /// A difference is the sum with the negated number.
    proof fn minus_adds_negated(a: Self, b: Self)
        ensures
            a.spec_minus(b) == a.spec_plus(b.spec_negated()),
    ;

    proof fn times_commutes(a: Self, b: Self)
        ensures
            a.spec_times(b) == b.spec_times(a),
    ;

    proof fn times_associates(a: Self, b: Self, c: Self)
        ensures
            a.spec_times(b).spec_times(c) == a.spec_times(b.spec_times(c)),
    ;

    proof fn times_one(a: Self)
        ensures
            a.spec_times(Self::spec_one()) == a,
    ;

    proof fn times_distributes(a: Self, b: Self, c: Self)
        ensures
            a.spec_times(b.spec_plus(c)) == a.spec_times(b).spec_plus(a.spec_times(c)),
    ;

    /// Multiplying and adding in one step is multiplying and then adding.
    proof fn mul_add_is_exact(a: Self, b: Self, c: Self)
        ensures
            a.spec_mul_add(b, c) == a.spec_times(b).spec_plus(c),
    ;

    proof fn two_is_one_and_one()
        ensures
            Self::spec_two() == Self::spec_one().spec_plus(Self::spec_one()),
    ;

    /// A quotient by 1 is the number itself.
    proof fn over_one(a: Self)
        ensures
            a.spec_over(Self::spec_one()) == a,
    ;

    proof fn one_is_positive()
        ensures
            Self::spec_one().spec_is_sign_positive(),
    ;
}

/// A ring in which every number but 0 divides, as the real numbers are.
pub trait Field: Ring {
    proof fn over_undoes_times(a: Self, b: Self)
        requires
            b != Self::spec_zero(),
        ensures
            a.spec_over(b).spec_times(b) == a,
    ;

    /// The numbers that the layout divides by are not 0.
    proof fn divisors_are_not_zero()
        ensures
            Self::spec_two() != Self::spec_zero(),
            Self::spec_hundred() != Self::spec_zero(),
    ;

    proof fn half_doubles_to_one()
        ensures
            Self::spec_half().spec_times(Self::spec_two()) == Self::spec_one(),
    ;
}

/// A field whose sines, cosines and degrees obey the laws of angles, as those of the
/// real numbers do.
pub trait Angles: Field {
    proof fn sine_is_odd(a: Self)
        ensures
            a.spec_negated().spec_sin() == a.spec_sin().spec_negated(),
    ;

    proof fn cosine_is_even(a: Self)
        ensures
            a.spec_negated().spec_cos() == a.spec_cos(),
    ;

    /// The squares of the sine and the cosine of an angle add up to 1.
    proof fn squares_add_up(a: Self)
        ensures
            a.spec_sin().spec_times(a.spec_sin()).spec_plus(a.spec_cos().spec_times(a.spec_cos()))
                == Self::spec_one(),
    ;

    proof fn angle_zero()
        ensures
            Self::spec_zero().spec_sin() == Self::spec_zero(),
            Self::spec_zero().spec_cos() == Self::spec_one(),
    ;

    /// A full turn more changes neither the sine nor the cosine.
    proof fn full_turn(a: Self)
        ensures
            a.spec_plus(Self::spec_two().spec_times(Self::spec_pi())).spec_sin() == a.spec_sin(),
            a.spec_plus(Self::spec_two().spec_times(Self::spec_pi())).spec_cos() == a.spec_cos(),
    ;

    /// Half a turn more negates both the sine and the cosine, so that no product of two of
    /// them changes.
    proof fn half_turn(a: Self)
        ensures
            ({
                let b = a.spec_plus(Self::spec_pi());
                &&& b.spec_sin().spec_times(b.spec_sin()) == a.spec_sin().spec_times(a.spec_sin())
                &&& b.spec_sin().spec_times(b.spec_cos()) == a.spec_sin().spec_times(a.spec_cos())
            }),
    ;

    proof fn radians_of_negated(degrees: Self)
        ensures
            degrees.spec_negated().spec_to_radians() == degrees.spec_to_radians().spec_negated(),
    ;
}

/// A scalar whose larger and smaller numbers are those of a total order.
pub trait Ordered: Scalar {
    /// Whether the number is not larger than `rhs`.
    spec fn at_most(self, rhs: Self) -> bool;

    proof fn order_is_total(a: Self, b: Self)
        ensures
            a.at_most(b) || b.at_most(a),
            a.at_most(b) && b.at_most(a) ==> a == b,
    ;

    proof fn order_is_transitive(a: Self, b: Self, c: Self)
        requires
            a.at_most(b),
            b.at_most(c),
        ensures
            a.at_most(c),
    ;

    proof fn extremes_follow_order(a: Self, b: Self)
        ensures
            a.spec_maximum(b) == if a.at_most(b) { b } else { a },
            a.spec_minimum(b) == if a.at_most(b) { a } else { b },
    ;
}

pub proof fn lemma_zero_plus<S: Ring>(a: S)
    ensures
        S::spec_zero().spec_plus(a) == a,
{
    S::plus_commutes(S::spec_zero(), a);
    S::plus_zero(a);
}

/// Sums with an equal summand are equal only if the other summands are.
pub proof fn lemma_plus_cancels<S: Ring>(a: S, b: S, c: S)
    requires
        a.spec_plus(c) == b.spec_plus(c),
    ensures
        a == b,
{
    let n = c.spec_negated();
    S::plus_associates(a, c, n);
    S::plus_associates(b, c, n);
    S::plus_negated(c);
    S::plus_zero(a);
    S::plus_zero(b);
}

/// `(a + b) + (c + d)` is `(a + c) + (b + d)`.
pub proof fn lemma_plus_interchanges<S: Ring>(a: S, b: S, c: S, d: S)
    ensures
        a.spec_plus(b).spec_plus(c.spec_plus(d)) == a.spec_plus(c).spec_plus(b.spec_plus(d)),
{
    S::plus_associates(a, b, c.spec_plus(d));
    S::plus_associates(b, c, d);
    S::plus_commutes(b, c);
    S::plus_associates(c, b, d);
    S::plus_associates(a, c, b.spec_plus(d));
}

/// What adds up to 0 with a number is the negated number.
pub proof fn lemma_negated_unique<S: Ring>(a: S, b: S)
    requires
        a.spec_plus(b) == S::spec_zero(),
    ensures
        b == a.spec_negated(),
{
    S::plus_negated(a);
    S::plus_commutes(a, b);
    S::plus_commutes(a, a.spec_negated());
    lemma_plus_cancels(b, a.spec_negated(), a);
}

pub proof fn lemma_negated<S: Ring>(a: S, b: S)
    ensures
        a.spec_negated().spec_negated() == a,
        a.spec_plus(b).spec_negated() == a.spec_negated().spec_plus(b.spec_negated()),
        a.spec_minus(b).spec_negated() == b.spec_minus(a),
        S::spec_zero().spec_negated() == S::spec_zero(),
        S::spec_zero().spec_minus(a) == a.spec_negated(),
        a.spec_minus(a) == S::spec_zero(),
        a.spec_minus(S::spec_zero()) == a,
{
    let z = S::spec_zero();
    let na = a.spec_negated();
    let nb = b.spec_negated();
    S::plus_negated(a);
    S::plus_negated(b);
    S::plus_commutes(a, na);
    lemma_negated_unique(na, a);
    lemma_plus_interchanges(a, b, na, nb);
    S::plus_zero(z);
    lemma_negated_unique(a.spec_plus(b), na.spec_plus(nb));
    lemma_negated_unique(z, z);
    S::minus_adds_negated(a, b);
    S::minus_adds_negated(b, a);
    S::plus_negated(nb);
    S::plus_commutes(b, nb);
    lemma_negated_unique(nb, b);
    lemma_plus_interchanges(a, nb, na, b);
    S::plus_commutes(na, b);
    lemma_negated_unique(a.spec_plus(nb), na.spec_plus(b));
    S::minus_adds_negated(z, a);
    lemma_zero_plus(na);
    S::minus_adds_negated(a, a);
    S::minus_adds_negated(a, z);
    S::plus_zero(a);
}

pub proof fn lemma_times_zero<S: Ring>(a: S)
    ensures
        a.spec_times(S::spec_zero()) == S::spec_zero(),
        S::spec_zero().spec_times(a) == S::spec_zero(),
{
    let z = S::spec_zero();
    S::plus_zero(z);
    S::times_distributes(a, z, z);
    let p = a.spec_times(z);
    lemma_zero_plus(p);
    lemma_plus_cancels(p, z, p);
    S::times_commutes(a, z);
}

pub proof fn lemma_one_times<S: Ring>(a: S)
    ensures
        S::spec_one().spec_times(a) == a,
{
    S::times_commutes(S::spec_one(), a);
    S::times_one(a);
}

pub proof fn lemma_times_negated<S: Ring>(a: S, b: S)
    ensures
        a.spec_times(b.spec_negated()) == a.spec_times(b).spec_negated(),
        a.spec_negated().spec_times(b) == a.spec_times(b).spec_negated(),
        a.spec_negated().spec_times(b.spec_negated()) == a.spec_times(b),
{
    lemma_times_negated_right(a, b);
    lemma_times_negated_right(b, a);
    S::times_commutes(a, b);
    S::times_commutes(a.spec_negated(), b);
    lemma_times_negated_right(a.spec_negated(), b);
    lemma_negated(a.spec_times(b), a);
}

proof fn lemma_times_negated_right<S: Ring>(a: S, b: S)
    ensures
        a.spec_times(b.spec_negated()) == a.spec_times(b).spec_negated(),
{
    S::times_distributes(a, b, b.spec_negated());
    S::plus_negated(b);
    lemma_times_zero(a);
    lemma_negated_unique(a.spec_times(b), a.spec_times(b.spec_negated()));
}

pub proof fn lemma_distributes<S: Ring>(a: S, b: S, c: S)
    ensures
        a.spec_plus(b).spec_times(c) == a.spec_times(c).spec_plus(b.spec_times(c)),
        c.spec_times(a.spec_plus(b)) == c.spec_times(a).spec_plus(c.spec_times(b)),
        a.spec_minus(b).spec_times(c) == a.spec_times(c).spec_minus(b.spec_times(c)),
        c.spec_times(a.spec_minus(b)) == c.spec_times(a).spec_minus(c.spec_times(b)),
{
    S::times_distributes(c, a, b);
    S::times_commutes(c, a);
    S::times_commutes(c, b);
    S::times_commutes(c, a.spec_plus(b));
    S::minus_adds_negated(a, b);
    S::times_distributes(c, a, b.spec_negated());
    lemma_times_negated(c, b);
    S::minus_adds_negated(c.spec_times(a), c.spec_times(b));
    S::times_commutes(c, a.spec_minus(b));
}

/// `(a * b) * (c * d)` is `(a * c) * (b * d)`.
pub proof fn lemma_times_interchanges<S: Ring>(a: S, b: S, c: S, d: S)
    ensures
        a.spec_times(b).spec_times(c.spec_times(d)) == a.spec_times(c).spec_times(b.spec_times(d)),
{
    S::times_associates(a, b, c.spec_times(d));
    S::times_associates(b, c, d);
    S::times_commutes(b, c);
    S::times_associates(c, b, d);
    S::times_associates(a, c, b.spec_times(d));
}

/// A difference or a sum within a sum, and within a difference.
pub proof fn lemma_regroups<S: Ring>(x: S, a: S, t: S)
    ensures
        x.spec_plus(a.spec_plus(t)) == x.spec_plus(a).spec_plus(t),
        x.spec_plus(a.spec_minus(t)) == x.spec_plus(a).spec_minus(t),
        x.spec_minus(a.spec_plus(t)) == x.spec_minus(a).spec_minus(t),
        x.spec_minus(a.spec_minus(t)) == x.spec_minus(a).spec_plus(t),
{
    let na = a.spec_negated();
    let nt = t.spec_negated();
    S::plus_associates(x, a, t);
    S::plus_associates(x, a, nt);
    S::plus_associates(x, na, nt);
    S::plus_associates(x, na, t);
    S::minus_adds_negated(a, t);
    S::minus_adds_negated(x.spec_plus(a), t);
    S::minus_adds_negated(x, a.spec_plus(t));
    S::minus_adds_negated(x, a);
    S::minus_adds_negated(x.spec_minus(a), t);
    S::minus_adds_negated(x, a.spec_minus(t));
    lemma_negated(a, t);
    S::minus_adds_negated(t, a);
    S::plus_commutes(t, na);
}

pub proof fn lemma_minus_plus<S: Ring>(a: S, b: S)
    ensures
        a.spec_minus(b).spec_plus(b) == a,
{
    lemma_regroups(a, b, b);
    lemma_negated(b, b);
    lemma_negated(a, b);
}

pub proof fn lemma_plus_minus<S: Ring>(a: S, b: S)
    ensures
        a.spec_plus(b).spec_minus(b) == a,
{
    lemma_regroups(a, b, b);
    lemma_negated(b, b);
    S::plus_zero(a);
}

/// Products with an equal factor other than 0 are equal only if the other factors are.
pub proof fn lemma_factor_cancels<S: Field>(a: S, b: S, c: S)
    requires
        c != S::spec_zero(),
        a.spec_times(c) == b.spec_times(c),
    ensures
        a == b,
{
    let d = S::spec_one().spec_over(c);
    S::over_undoes_times(S::spec_one(), c);
    S::times_commutes(d, c);
    S::times_associates(a, c, d);
    S::times_associates(b, c, d);
    S::times_one(a);
    S::times_one(b);
}

} // verus!
