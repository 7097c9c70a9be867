//! The laws of whole numbers modulo 2^64.
use crate::ring::{Ordered, Ring};
use crate::scalar::{lemma_wrapped_plus_left, lemma_wrapped_times_left, Scalar};
use vstd::arithmetic::mul::{
    lemma_mul_is_associative, lemma_mul_is_commutative, lemma_mul_is_distributive_add,
};
use vstd::prelude::*;

verus! {

impl Ring for i64 {
    proof fn plus_commutes(a: i64, b: i64) {
    }

    proof fn plus_associates(a: i64, b: i64, c: i64) {
        lemma_wrapped_plus_left(a + b, c as int);
        lemma_wrapped_plus_left(b + c, a as int);
    }

    proof fn plus_zero(a: i64) {
    }

    proof fn plus_negated(a: i64) {
        lemma_wrapped_plus_left(-a, a as int);
    }

    proof fn minus_adds_negated(a: i64, b: i64) {
        lemma_wrapped_plus_left(-b, a as int);
    }

    proof fn times_commutes(a: i64, b: i64) {
        lemma_mul_is_commutative(a as int, b as int);
    }

    proof fn times_associates(a: i64, b: i64, c: i64) {
        lemma_wrapped_times_left(a * b, c as int);
        lemma_wrapped_times_left(b * c, a as int);
        lemma_mul_is_commutative(b.spec_times(c) as int, a as int);
        lemma_mul_is_commutative(b * c, a as int);
        lemma_mul_is_associative(a as int, b as int, c as int);
    }

    proof fn times_one(a: i64) {
    }

    proof fn times_distributes(a: i64, b: i64, c: i64) {
        lemma_wrapped_times_left(b + c, a as int);
        lemma_mul_is_commutative(b.spec_plus(c) as int, a as int);
        lemma_mul_is_commutative(b + c, a as int);
        lemma_mul_is_distributive_add(a as int, b as int, c as int);
        lemma_wrapped_plus_left(a * b, a.spec_times(c) as int);
        lemma_wrapped_plus_left(a * c, a * b);
    }

    proof fn mul_add_is_exact(a: i64, b: i64, c: i64) {
        lemma_wrapped_plus_left(a * b, c as int);
    }

    proof fn two_is_one_and_one() {
    }

    proof fn over_one(a: i64) {
    }

    proof fn one_is_positive() {
    }
}

impl Ordered for i64 {
    open spec fn at_most(self, rhs: i64) -> bool {
        self <= rhs
    }

    proof fn order_is_total(a: i64, b: i64) {
    }

    proof fn order_is_transitive(a: i64, b: i64, c: i64) {
    }

    proof fn extremes_follow_order(a: i64, b: i64) {
    }
}

/// Whole numbers are computed exactly wherever the result can be represented.
pub proof fn law_whole_numbers_are_exact(a: i64, b: i64, c: i64)
    ensures
        i64::MIN <= a + b <= i64::MAX ==> a.spec_plus(b) == a + b,
        i64::MIN <= a - b <= i64::MAX ==> a.spec_minus(b) == a - b,
        i64::MIN <= a * b <= i64::MAX ==> a.spec_times(b) == a * b,
        i64::MIN <= a * b + c <= i64::MAX ==> a.spec_mul_add(b, c) == a * b + c,
        a != i64::MIN ==> a.spec_negated() == -a,
        a >= 0 && b > 0 ==> a.spec_over(b) == a as int / b as int,
        a.spec_over(0i64) == 0,
        isize::MIN <= a <= isize::MAX ==> a.spec_round_to_isize() == a,
        a.spec_is_sign_positive() <==> a >= 0,
        i64::spec_zero() == 0 && i64::spec_one() == 1 && i64::spec_two() == 2,
        i64::spec_hundred() == 100,
{
}

/// Angles of whole numbers are degrees: a full turn changes no sine and no cosine, and
/// the quarter turns have those of the unit circle.
pub proof fn law_whole_angles(a: i64)
    requires
        a + 360 <= i64::MAX,
    ensures
        a.spec_plus(360i64).spec_sin() == a.spec_sin(),
        a.spec_plus(360i64).spec_cos() == a.spec_cos(),
        0i64.spec_sin() == 0 && 0i64.spec_cos() == 1,
        90i64.spec_sin() == 1 && 90i64.spec_cos() == 0,
        180i64.spec_sin() == 0 && 180i64.spec_cos() == -1,
        270i64.spec_sin() == -1 && 270i64.spec_cos() == 0,
        a as int % 90 != 0 ==> a.spec_sin() == 0 && a.spec_cos() == 0,
        a.spec_to_radians() == a,
        i64::spec_pi() == 180,
{
    law_whole_numbers_are_exact(a, 360, 0);
    let n = a as int;
    assert((n + 360) % 360 == n % 360);
    let k = n / 360;
    let r = n % 360;
    assert(n == 360 * k + r);
    if n % 90 != 0 {
        assert(r != 0 && r != 90 && r != 180 && r != 270) by {
            lemma_same_quarters(k, r);
        }
    }
}

proof fn lemma_same_quarters(k: int, r: int)
    ensures
        (360 * k + r) % 90 == r % 90,
{
}

} // verus!
