//! The field of whole numbers modulo 7.
use crate::ring::{Angles, Field, Ring};
use crate::scalar::Scalar;
use vstd::arithmetic::div_mod::{
    lemma_add_mod_noop, lemma_mul_mod_noop_left, lemma_mul_mod_noop_right,
};
use vstd::arithmetic::mul::{
    lemma_mul_is_associative, lemma_mul_is_commutative, lemma_mul_is_distributive_add,
};
use vstd::prelude::*;

verus! {

/// A whole number modulo 7, as the one from 0 to 6 that is congruent to it.
#[derive(Debug, Clone, Copy, PartialEq, Eq, Structural)]
pub enum Residue {
    Zero,
    One,
    Two,
    Three,
    Four,
    Five,
    Six,
}

/// `x * y`.
pub open spec fn product(x: int, y: int) -> int {
    x * y
}

impl Residue {
    /// The number from 0 to 6.
    pub open spec fn spec_number(self) -> int {
        match self {
            Residue::Zero => 0,
            Residue::One => 1,
            Residue::Two => 2,
            Residue::Three => 3,
            Residue::Four => 4,
            Residue::Five => 5,
            Residue::Six => 6,
        }
    }

    /// The residue of a whole number.
    pub open spec fn spec_of(x: int) -> Residue {
        let r = x % 7;
        if r == 0 {
            Residue::Zero
        } else if r == 1 {
            Residue::One
        } else if r == 2 {
            Residue::Two
        } else if r == 3 {
            Residue::Three
        } else if r == 4 {
            Residue::Four
        } else if r == 5 {
            Residue::Five
        } else {
            Residue::Six
        }
    }

    /// The residue that gives 1 when multiplied by this one; for 0, which has none, 0.
    pub open spec fn spec_reciprocal(self) -> Residue {
        match self {
            Residue::Zero => Residue::Zero,
            Residue::One => Residue::One,
            Residue::Two => Residue::Four,
            Residue::Three => Residue::Five,
            Residue::Four => Residue::Two,
            Residue::Five => Residue::Three,
            Residue::Six => Residue::Six,
        }
    }

    pub fn number(self) -> (r: u64)
        ensures
            r == self.spec_number(),
            r < 7,
    {
        match self {
            Residue::Zero => 0,
            Residue::One => 1,
            Residue::Two => 2,
            Residue::Three => 3,
            Residue::Four => 4,
            Residue::Five => 5,
            Residue::Six => 6,
        }
    }

    pub fn of(x: u64) -> (r: Residue)
        ensures
            r == Residue::spec_of(x as int),
    {
        match x % 7 {
            0 => Residue::Zero,
            1 => Residue::One,
            2 => Residue::Two,
            3 => Residue::Three,
            4 => Residue::Four,
            5 => Residue::Five,
            _ => Residue::Six,
        }
    }

    pub fn reciprocal(self) -> (r: Residue)
        ensures
            r == self.spec_reciprocal(),
            self != Residue::Zero ==> r.spec_times(self) == Residue::One,
    {
        proof {
            lemma_products();
        }
        match self {
            Residue::Zero => Residue::Zero,
            Residue::One => Residue::One,
            Residue::Two => Residue::Four,
            Residue::Three => Residue::Five,
            Residue::Four => Residue::Two,
            Residue::Five => Residue::Three,
            Residue::Six => Residue::Six,
        }
    }
}

/// The sine of the angle whose half has the tangent `t`: `2t / (1 + t^2)`.
#[verifier::opaque]
pub open spec fn sine_from_half(t: Residue) -> Residue {
    Residue::Two.spec_times(t).spec_over(Residue::One.spec_plus(t.spec_times(t)))
}

/// The cosine of the angle whose half has the tangent `t`: `(1 - t^2) / (1 + t^2)`.
#[verifier::opaque]
pub open spec fn cosine_from_half(t: Residue) -> Residue {
    let squared = t.spec_times(t);
    Residue::One.spec_minus(squared).spec_over(Residue::One.spec_plus(squared))
}

/// Whole numbers modulo 7: every operation is exact, and every number but 0 divides; a
/// quotient by 0 is 0. An angle is given by the tangent of its half, as which 0 stands
/// for a full turn and for half of one; degrees and radians are the same. The larger and
/// the smaller of two numbers are those of the numbers from 0 to 6, and the numbers up to
/// 3 count as positive.
impl Scalar for Residue {
    open spec fn spec_zero() -> Residue {
        Residue::Zero
    }

    open spec fn spec_one() -> Residue {
        Residue::One
    }

    open spec fn spec_two() -> Residue {
        Residue::Two
    }

    open spec fn spec_half() -> Residue {
        Residue::Four
    }

    open spec fn spec_hundred() -> Residue {
        Residue::Two
    }

    open spec fn spec_pi() -> Residue {
        Residue::Zero
    }

    open spec fn spec_plus(self, rhs: Residue) -> Residue {
        Residue::spec_of(self.spec_number() + rhs.spec_number())
    }

    open spec fn spec_minus(self, rhs: Residue) -> Residue {
        Residue::spec_of(self.spec_number() - rhs.spec_number())
    }

    open spec fn spec_times(self, rhs: Residue) -> Residue {
        Residue::spec_of(product(self.spec_number(), rhs.spec_number()))
    }

    open spec fn spec_over(self, rhs: Residue) -> Residue {
        self.spec_times(rhs.spec_reciprocal())
    }

    open spec fn spec_negated(self) -> Residue {
        Residue::spec_of(-self.spec_number())
    }

    open spec fn spec_mul_add(self, factor: Residue, addend: Residue) -> Residue {
        Residue::spec_of(product(self.spec_number(), factor.spec_number()) + addend.spec_number())
    }

    open spec fn spec_to_radians(self) -> Residue {
        self
    }

    open spec fn spec_sin(self) -> Residue {
        sine_from_half(self)
    }

    open spec fn spec_cos(self) -> Residue {
        cosine_from_half(self)
    }

    open spec fn spec_tan(self) -> Residue {
        self.spec_sin().spec_over(self.spec_cos())
    }

    open spec fn spec_maximum(self, rhs: Residue) -> Residue {
        if self.spec_number() >= rhs.spec_number() { self } else { rhs }
    }

    open spec fn spec_minimum(self, rhs: Residue) -> Residue {
        if self.spec_number() <= rhs.spec_number() { self } else { rhs }
    }

    open spec fn spec_is_sign_positive(self) -> bool {
        self.spec_number() <= 3
    }

    open spec fn spec_round_to_isize(self) -> isize {
        self.spec_number() as isize
    }

    fn zero() -> (r: Residue) {
        Residue::Zero
    }

    fn one() -> (r: Residue) {
        Residue::One
    }

    fn two() -> (r: Residue) {
        Residue::Two
    }

    fn half() -> (r: Residue) {
        Residue::Four
    }

    fn hundred() -> (r: Residue) {
        Residue::Two
    }

    fn pi() -> (r: Residue) {
        Residue::Zero
    }

    fn plus(self, rhs: Residue) -> (r: Residue) {
        Residue::of(self.number() + rhs.number())
    }

    fn minus(self, rhs: Residue) -> (r: Residue) {
        Residue::of(self.number() + 7 - rhs.number())
    }

    fn times(self, rhs: Residue) -> (r: Residue) {
        let a: u64 = self.number();
        let b: u64 = rhs.number();
        proof {
            lemma_small_product(a as int, b as int);
        }
        Residue::of(a * b)
    }

    fn over(self, rhs: Residue) -> (r: Residue) {
        self.times(rhs.reciprocal())
    }

    fn negated(self) -> (r: Residue) {
        Residue::of(7 - self.number())
    }

    fn mul_add(self, factor: Residue, addend: Residue) -> (r: Residue) {
        let a: u64 = self.number();
        let b: u64 = factor.number();
        proof {
            lemma_small_product(a as int, b as int);
        }
        Residue::of(a * b + addend.number())
    }

    fn to_radians(self) -> (r: Residue) {
        self
    }

    fn sin(self) -> (r: Residue) {
        proof {
            reveal(sine_from_half);
        }
        let squared: Residue = self.times(self);
        Residue::Two.times(self).over(Residue::One.plus(squared))
    }

    fn cos(self) -> (r: Residue) {
        proof {
            reveal(cosine_from_half);
        }
        let squared: Residue = self.times(self);
        Residue::One.minus(squared).over(Residue::One.plus(squared))
    }

    fn tan(self) -> (r: Residue) {
        self.sin().over(self.cos())
    }

    fn maximum(self, rhs: Residue) -> (r: Residue) {
        if self.number() >= rhs.number() { self } else { rhs }
    }

    fn minimum(self, rhs: Residue) -> (r: Residue) {
        if self.number() <= rhs.number() { self } else { rhs }
    }

    fn is_sign_positive(self) -> (r: bool) {
        self.number() <= 3
    }

    fn round_to_isize(self) -> (r: isize) {
        self.number() as isize
    }
}

proof fn lemma_small_product(a: int, b: int)
    requires
        0 <= a < 7,
        0 <= b < 7,
    ensures
        0 <= a * b < 49,
{
    assert(0 <= a * b < 49) by (nonlinear_arith)
        requires
            0 <= a < 7,
            0 <= b < 7,
    ;
}

/// The residue of a number keeps its remainder.
proof fn lemma_number_of(x: int)
    ensures
        Residue::spec_of(x).spec_number() == x % 7,
{
}

impl Ring for Residue {
    proof fn plus_commutes(a: Residue, b: Residue) {
    }

    proof fn plus_associates(a: Residue, b: Residue, c: Residue) {
        lemma_number_of(a.spec_number() + b.spec_number());
        lemma_number_of(b.spec_number() + c.spec_number());
    }

    proof fn plus_zero(a: Residue) {
    }

    proof fn plus_negated(a: Residue) {
    }

    proof fn minus_adds_negated(a: Residue, b: Residue) {
        lemma_number_of(-b.spec_number());
    }

    proof fn times_commutes(a: Residue, b: Residue) {
        lemma_mul_is_commutative(a.spec_number(), b.spec_number());
    }

    proof fn times_associates(a: Residue, b: Residue, c: Residue) {
        let (x, y, z) = (a.spec_number(), b.spec_number(), c.spec_number());
        lemma_number_of(x * y);
        lemma_number_of(y * z);
        lemma_mul_mod_noop_left(x * y, z, 7);
        lemma_mul_mod_noop_right(x, y * z, 7);
        lemma_mul_is_associative(x, y, z);
    }

    proof fn times_one(a: Residue) {
    }

    proof fn times_distributes(a: Residue, b: Residue, c: Residue) {
        let (x, y, z) = (a.spec_number(), b.spec_number(), c.spec_number());
        lemma_number_of(y + z);
        lemma_number_of(x * y);
        lemma_number_of(x * z);
        lemma_mul_mod_noop_right(x, y + z, 7);
        lemma_mul_is_distributive_add(x, y, z);
        lemma_add_mod_noop(x * y, x * z, 7);
    }

    proof fn mul_add_is_exact(a: Residue, b: Residue, c: Residue) {
        lemma_number_of(product(a.spec_number(), b.spec_number()));
    }

    proof fn two_is_one_and_one() {
    }

    proof fn over_one(a: Residue) {
    }

    proof fn one_is_positive() {
    }
}

impl Field for Residue {
    proof fn over_undoes_times(a: Residue, b: Residue) {
        let c = b.spec_reciprocal();
        lemma_products();
        assert(c.spec_times(b) == Residue::One);
        Residue::times_associates(a, c, b);
        Residue::times_one(a);
    }

    proof fn divisors_are_not_zero() {
    }

    proof fn half_doubles_to_one() {
    }
}

/// The products that the sines and cosines are made of.
proof fn lemma_products()
    ensures
        product(0, 0) == 0,
        product(0, 1) == 0,
        product(0, 4) == 0,
        product(1, 1) == 1,
        product(1, 5) == 5,
        product(2, 0) == 0,
        product(2, 1) == 2,
        product(2, 2) == 4,
        product(2, 3) == 6,
        product(2, 4) == 8,
        product(2, 5) == 10,
        product(2, 6) == 12,
        product(3, 3) == 9,
        product(3, 5) == 15,
        product(4, 2) == 8,
        product(4, 3) == 12,
        product(4, 4) == 16,
        product(5, 3) == 15,
        product(5, 4) == 20,
        product(5, 5) == 25,
        product(6, 5) == 30,
        product(6, 6) == 36,
{
}

/// The sine of an angle, step by step.
proof fn lemma_sine(t: Residue, doubled: Residue, squared: Residue, divisor: Residue, r: Residue)
    requires
        Residue::Two.spec_times(t) == doubled,
        t.spec_times(t) == squared,
        Residue::One.spec_plus(squared) == divisor,
        doubled.spec_over(divisor) == r,
    ensures
        t.spec_sin() == r,
{
    reveal(sine_from_half);
}

/// The cosine of an angle, step by step.
proof fn lemma_cosine(t: Residue, squared: Residue, rest: Residue, divisor: Residue, r: Residue)
    requires
        t.spec_times(t) == squared,
        Residue::One.spec_minus(squared) == rest,
        Residue::One.spec_plus(squared) == divisor,
        rest.spec_over(divisor) == r,
    ensures
        t.spec_cos() == r,
{
    reveal(cosine_from_half);
}

/// The sines of all angles.
proof fn lemma_sines()
    ensures
        Residue::Zero.spec_sin() == Residue::Zero,
        Residue::One.spec_sin() == Residue::One,
        Residue::Two.spec_sin() == Residue::Five,
        Residue::Three.spec_sin() == Residue::Two,
        Residue::Four.spec_sin() == Residue::Five,
        Residue::Five.spec_sin() == Residue::Two,
        Residue::Six.spec_sin() == Residue::Six,
{
    lemma_products();
    lemma_sine(Residue::Zero, Residue::Zero, Residue::Zero, Residue::One, Residue::Zero);
    lemma_sine(Residue::One, Residue::Two, Residue::One, Residue::Two, Residue::One);
    lemma_sine(Residue::Two, Residue::Four, Residue::Four, Residue::Five, Residue::Five);
    lemma_sine(Residue::Three, Residue::Six, Residue::Two, Residue::Three, Residue::Two);
    lemma_sine(Residue::Four, Residue::One, Residue::Two, Residue::Three, Residue::Five);
    lemma_sine(Residue::Five, Residue::Three, Residue::Four, Residue::Five, Residue::Two);
    lemma_sine(Residue::Six, Residue::Five, Residue::One, Residue::Two, Residue::Six);
}

/// The cosines of all angles.
proof fn lemma_cosines()
    ensures
        Residue::Zero.spec_cos() == Residue::One,
        Residue::One.spec_cos() == Residue::Zero,
        Residue::Two.spec_cos() == Residue::Five,
        Residue::Three.spec_cos() == Residue::Two,
        Residue::Four.spec_cos() == Residue::Two,
        Residue::Five.spec_cos() == Residue::Five,
        Residue::Six.spec_cos() == Residue::Zero,
{
    lemma_products();
    lemma_cosine(Residue::Zero, Residue::Zero, Residue::One, Residue::One, Residue::One);
    lemma_cosine(Residue::One, Residue::One, Residue::Zero, Residue::Two, Residue::Zero);
    lemma_cosine(Residue::Two, Residue::Four, Residue::Four, Residue::Five, Residue::Five);
    lemma_cosine(Residue::Three, Residue::Two, Residue::Six, Residue::Three, Residue::Two);
    lemma_cosine(Residue::Four, Residue::Two, Residue::Six, Residue::Three, Residue::Two);
    lemma_cosine(Residue::Five, Residue::Four, Residue::Four, Residue::Five, Residue::Five);
    lemma_cosine(Residue::Six, Residue::One, Residue::Zero, Residue::Two, Residue::Zero);
}

/// A pair of numbers of which one is 0 and the other is 1 or -1, or of which each is 2
/// or -2, lies on the unit circle.
proof fn lemma_on_circle(x: Residue, y: Residue)
    requires
        x == Residue::Zero && (y == Residue::One || y == Residue::Six) || y == Residue::Zero && (x
            == Residue::One || x == Residue::Six) || (x == Residue::Two || x == Residue::Five) && (y
            == Residue::Two || y == Residue::Five),
    ensures
        x.spec_times(x).spec_plus(y.spec_times(y)) == Residue::One,
{
    lemma_products();
}

impl Angles for Residue {
    proof fn sine_is_odd(a: Residue) {
        lemma_sines();
    }

    proof fn cosine_is_even(a: Residue) {
        lemma_cosines();
    }

    proof fn squares_add_up(a: Residue) {
        lemma_sines();
        lemma_cosines();
        lemma_on_circle(a.spec_sin(), a.spec_cos());
    }

    proof fn angle_zero() {
        lemma_sines();
        lemma_cosines();
    }

    proof fn full_turn(a: Residue) {
        lemma_products();
        assert(Residue::Two.spec_times(Residue::Zero) == Residue::Zero);
        Residue::plus_zero(a);
    }

    proof fn half_turn(a: Residue) {
        Residue::plus_zero(a);
    }

    proof fn radians_of_negated(degrees: Residue) {
    }
}

} // verus!
