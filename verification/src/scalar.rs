//! The numbers that the layout is measured in.
use vstd::prelude::*;

verus! {

/// A number with the operations that the layout computations need.
///
/// For every operation there is a specification function that names its result,
/// and the executable method returns exactly that value. Nothing else is asked:
/// in particular the operations need not obey the laws of a ring, so a rounding
/// scalar qualifies. What is stated of a generic function is therefore the exact
/// expression, in its order of evaluation, that the result is.
pub trait Scalar: Copy + Send + Sync {
    /// The number 0.
    spec fn spec_zero() -> Self;

    /// The number 1.
    spec fn spec_one() -> Self;

    /// The number 2.
    spec fn spec_two() -> Self;

    /// The number 1/2, or what represents it.
    spec fn spec_half() -> Self;

    /// The number 100.
    spec fn spec_hundred() -> Self;

    /// Half a turn in radians.
    spec fn spec_pi() -> Self;

    /// `self + rhs`.
    spec fn spec_plus(self, rhs: Self) -> Self;

    /// `self - rhs`.
    spec fn spec_minus(self, rhs: Self) -> Self;

    /// `self * rhs`.
    spec fn spec_times(self, rhs: Self) -> Self;

    /// `self / rhs`.
    spec fn spec_over(self, rhs: Self) -> Self;

    /// `-self`.
    spec fn spec_negated(self) -> Self;

    /// `self * factor + addend`, in one step.
    spec fn spec_mul_add(self, factor: Self, addend: Self) -> Self;

    /// The angle of `self` degrees, in radians.
    spec fn spec_to_radians(self) -> Self;

    /// The sine of the angle of `self` radians.
    spec fn spec_sin(self) -> Self;

    /// The cosine of the angle of `self` radians.
    spec fn spec_cos(self) -> Self;

    /// The tangent of the angle of `self` radians.
    spec fn spec_tan(self) -> Self;

    /// The larger of the two numbers; of a number and what is not a number, the number.
    spec fn spec_maximum(self, rhs: Self) -> Self;

    /// The smaller of the two numbers; of a number and what is not a number, the number.
    spec fn spec_minimum(self, rhs: Self) -> Self;

    /// Whether the sign of the number is positive, as that of 0 is.
    spec fn spec_is_sign_positive(self) -> bool;

    /// The nearest `isize`, halves being rounded away from 0.
    spec fn spec_round_to_isize(self) -> isize;

    fn zero() -> (r: Self)
        ensures
            r == Self::spec_zero(),
    ;

    fn one() -> (r: Self)
        ensures
            r == Self::spec_one(),
    ;

    fn two() -> (r: Self)
        ensures
            r == Self::spec_two(),
    ;

    fn half() -> (r: Self)
        ensures
            r == Self::spec_half(),
    ;

    fn hundred() -> (r: Self)
        ensures
            r == Self::spec_hundred(),
    ;

    fn pi() -> (r: Self)
        ensures
            r == Self::spec_pi(),
    ;

    fn plus(self, rhs: Self) -> (r: Self)
        ensures
            r == self.spec_plus(rhs),
    ;

    fn minus(self, rhs: Self) -> (r: Self)
        ensures
            r == self.spec_minus(rhs),
    ;

    fn times(self, rhs: Self) -> (r: Self)
        ensures
            r == self.spec_times(rhs),
    ;

    fn over(self, rhs: Self) -> (r: Self)
        ensures
            r == self.spec_over(rhs),
    ;

    fn negated(self) -> (r: Self)
        ensures
            r == self.spec_negated(),
    ;

    fn mul_add(self, factor: Self, addend: Self) -> (r: Self)
        ensures
            r == self.spec_mul_add(factor, addend),
    ;

    fn to_radians(self) -> (r: Self)
        ensures
            r == self.spec_to_radians(),
    ;

    fn sin(self) -> (r: Self)
        ensures
            r == self.spec_sin(),
    ;

    fn cos(self) -> (r: Self)
        ensures
            r == self.spec_cos(),
    ;

    fn tan(self) -> (r: Self)
        ensures
            r == self.spec_tan(),
    ;

    fn maximum(self, rhs: Self) -> (r: Self)
        ensures
            r == self.spec_maximum(rhs),
    ;

    fn minimum(self, rhs: Self) -> (r: Self)
        ensures
            r == self.spec_minimum(rhs),
    ;

    fn is_sign_positive(self) -> (r: bool)
        ensures
            r == self.spec_is_sign_positive(),
    ;

    fn round_to_isize(self) -> (r: isize)
        ensures
            r == self.spec_round_to_isize(),
    ;
}

/// The tangent of an angle from 0 to 89 degrees, rounded towards 0; that of a right
/// angle, which has none, is 0.
#[verifier::opaque]
pub open spec fn whole_tangent(degrees: int) -> i64 {
    if degrees < 45 {
        0
    } else if degrees < 64 {
        1
    } else if degrees < 72 {
        2
    } else if degrees < 76 {
        3
    } else if degrees < 79 {
        4
    } else if degrees < 81 {
        5
    } else if degrees < 82 {
        6
    } else if degrees < 83 {
        7
    } else if degrees < 84 {
        8
    } else if degrees < 85 {
        9
    } else if degrees < 86 {
        11
    } else if degrees < 87 {
        14
    } else if degrees < 88 {
        19
    } else if degrees < 89 {
        28
    } else if degrees < 90 {
        57
    } else {
        0
    }
}

/// The `i64` that is congruent to `x` modulo 2^64.
pub open spec fn wrapped(x: int) -> i64 {
    vstd::wrapping::i64_specs::signed_crop(x)
}

/// Whole numbers modulo 2^64: sums, differences and products are exact up to
/// that modulus. A half is rounded to 0, quotients are rounded towards 0, and a
/// quotient by 0 is 0. Angles are counted in degrees instead of radians; sines,
/// cosines and tangents are rounded towards 0, and where a tangent has no value it is
/// 0, as a quotient by 0 is.
impl Scalar for i64 {
    open spec fn spec_zero() -> i64 {
        0
    }

    open spec fn spec_one() -> i64 {
        1
    }

    open spec fn spec_two() -> i64 {
        2
    }

    open spec fn spec_half() -> i64 {
        0
    }

    open spec fn spec_hundred() -> i64 {
        100
    }

    open spec fn spec_pi() -> i64 {
        180
    }

    open spec fn spec_plus(self, rhs: i64) -> i64 {
        wrapped(self + rhs)
    }

    open spec fn spec_minus(self, rhs: i64) -> i64 {
        wrapped(self - rhs)
    }

    open spec fn spec_times(self, rhs: i64) -> i64 {
        wrapped(self * rhs)
    }

    open spec fn spec_over(self, rhs: i64) -> i64 {
        match self.checked_div(rhs) {
            Some(quotient) => quotient,
            None => if rhs == 0 { 0 } else { self },
        }
    }

    open spec fn spec_negated(self) -> i64 {
        wrapped(-self)
    }

    open spec fn spec_mul_add(self, factor: i64, addend: i64) -> i64 {
        wrapped(self * factor + addend)
    }

    open spec fn spec_to_radians(self) -> i64 {
        self
    }

    open spec fn spec_sin(self) -> i64 {
        if self as int % 360 == 90 {
            1
        } else if self as int % 360 == 270 {
            -1i64
        } else {
            0
        }
    }

    open spec fn spec_cos(self) -> i64 {
        if self as int % 360 == 0 {
            1
        } else if self as int % 360 == 180 {
            -1i64
        } else {
            0
        }
    }

    open spec fn spec_tan(self) -> i64 {
        let degrees = self as int % 180;
        if degrees < 90 {
            whole_tangent(degrees)
        } else {
            whole_tangent(180 - degrees).spec_negated()
        }
    }

    open spec fn spec_maximum(self, rhs: i64) -> i64 {
        if self >= rhs { self } else { rhs }
    }

    open spec fn spec_minimum(self, rhs: i64) -> i64 {
        if self <= rhs { self } else { rhs }
    }

    open spec fn spec_is_sign_positive(self) -> bool {
        self >= 0
    }

    open spec fn spec_round_to_isize(self) -> isize {
        if self > isize::MAX {
            isize::MAX
        } else if self < isize::MIN {
            isize::MIN
        } else {
            self as isize
        }
    }

    fn zero() -> (r: i64) {
        0
    }

    fn one() -> (r: i64) {
        1
    }

    fn two() -> (r: i64) {
        2
    }

    fn half() -> (r: i64) {
        0
    }

    fn hundred() -> (r: i64) {
        100
    }

    fn pi() -> (r: i64) {
        180
    }

    fn plus(self, rhs: i64) -> (r: i64) {
        self.wrapping_add(rhs)
    }

    fn minus(self, rhs: i64) -> (r: i64) {
        self.wrapping_sub(rhs)
    }

    fn times(self, rhs: i64) -> (r: i64) {
        self.wrapping_mul(rhs)
    }

    fn over(self, rhs: i64) -> (r: i64) {
        match self.checked_div(rhs) {
            Some(quotient) => quotient,
            None => if rhs == 0 { 0 } else { self },
        }
    }

    fn negated(self) -> (r: i64) {
        0i64.wrapping_sub(self)
    }

    fn mul_add(self, factor: i64, addend: i64) -> (r: i64) {
        proof {
            lemma_wrapped_plus_left(self * factor, addend as int);
        }
        self.wrapping_mul(factor).wrapping_add(addend)
    }

    fn to_radians(self) -> (r: i64) {
        self
    }

    fn sin(self) -> (r: i64) {
        let degrees: i64 = whole_degrees(self);
        if degrees == 90 {
            1
        } else if degrees == 270 {
            -1
        } else {
            0
        }
    }

    fn cos(self) -> (r: i64) {
        let degrees: i64 = whole_degrees(self);
        if degrees == 0 {
            1
        } else if degrees == 180 {
            -1
        } else {
            0
        }
    }

    fn tan(self) -> (r: i64) {
        let degrees: i64 = whole_degrees(self);
        let directed: i64 = if degrees < 180 { degrees } else { degrees - 180 };
        assert(directed == self as int % 180);
        if directed < 90 {
            tangent_of(directed)
        } else {
            tangent_of(180 - directed).negated()
        }
    }

    fn maximum(self, rhs: i64) -> (r: i64) {
        if self >= rhs { self } else { rhs }
    }

    fn minimum(self, rhs: i64) -> (r: i64) {
        if self <= rhs { self } else { rhs }
    }

    fn is_sign_positive(self) -> (r: bool) {
        self >= 0
    }

    fn round_to_isize(self) -> (r: isize) {
        if self > isize::MAX as i64 {
            isize::MAX
        } else if self < isize::MIN as i64 {
            isize::MIN
        } else {
            self as isize
        }
    }
}

/// The number of degrees from 0 to 359 that is the same angle.
fn whole_degrees(angle: i64) -> (r: i64)
    ensures
        r == angle as int % 360,
{
    match angle.checked_rem_euclid(360) {
        Some(degrees) => degrees,
        None => 0,
    }
}

/// The tangent of an angle from 0 to 90 degrees.
fn tangent_of(degrees: i64) -> (r: i64)
    requires
        0 <= degrees <= 90,
    ensures
        r == whole_tangent(degrees as int),
{
    proof {
        reveal(whole_tangent);
    }
    if degrees < 45 {
        0
    } else if degrees < 64 {
        1
    } else if degrees < 72 {
        2
    } else if degrees < 76 {
        3
    } else if degrees < 79 {
        4
    } else if degrees < 81 {
        5
    } else if degrees < 82 {
        6
    } else if degrees < 83 {
        7
    } else if degrees < 84 {
        8
    } else if degrees < 85 {
        9
    } else if degrees < 86 {
        11
    } else if degrees < 87 {
        14
    } else if degrees < 88 {
        19
    } else if degrees < 89 {
        28
    } else if degrees < 90 {
        57
    } else {
        0
    }
}

/// `wrapped(x)` differs from `x` by a multiple of 2^64.
pub proof fn lemma_wrapped_congruent(x: int)
    ensures
        exists|k: int| #[trigger] wrapped_by(x, k),
{
    let q = x / 0x1_0000_0000_0000_0000;
    if x % 0x1_0000_0000_0000_0000 > i64::MAX {
        assert(wrapped_by(x, q + 1));
    } else {
        assert(wrapped_by(x, q));
    }
}

/// `wrapped(x)` is `x` less `k` times 2^64.
pub open spec fn wrapped_by(x: int, k: int) -> bool {
    wrapped(x) == x - k * 0x1_0000_0000_0000_0000
}

/// Numbers that differ by a multiple of 2^64 wrap to the same `i64`.
pub proof fn lemma_wrapped_period(x: int, k: int)
    ensures
        wrapped(x + k * 0x1_0000_0000_0000_0000) == wrapped(x),
{
    vstd::arithmetic::div_mod::lemma_mod_multiples_vanish(k, x, 0x1_0000_0000_0000_0000);
    assert(0x1_0000_0000_0000_0000 * k + x == x + k * 0x1_0000_0000_0000_0000);
}

/// Wrapping a summand first does not change the wrapped sum.
pub proof fn lemma_wrapped_plus_left(x: int, y: int)
    ensures
        wrapped(wrapped(x) + y) == wrapped(x + y),
{
    lemma_wrapped_congruent(x);
    let k = choose|k: int| #[trigger] wrapped_by(x, k);
    lemma_wrapped_period(x + y, -k);
}

/// Wrapping a factor first does not change the wrapped product.
pub proof fn lemma_wrapped_times_left(x: int, y: int)
    ensures
        wrapped(wrapped(x) * y) == wrapped(x * y),
{
    lemma_wrapped_congruent(x);
    let k = choose|k: int| #[trigger] wrapped_by(x, k);
    lemma_wrapped_period(x * y, -k * y);
    assert((x - k * 0x1_0000_0000_0000_0000) * y == x * y + (-k * y) * 0x1_0000_0000_0000_0000)
        by (nonlinear_arith);
}

} // verus!
