//! Computed transforms of rectangles: 4 x 4 matrices that act on row vectors.
use crate::geometry::LogicalPosition;
use crate::scalar::Scalar;
use crate::style::{StyleTransform, StyleTransformOrigin};
use vstd::prelude::*;

verus! {

/// For some reason the rotation matrix for the renderer is inverted:
/// when rendering, the matrix turns the rectangle counter-clockwise
/// instead of clockwise.
///
/// This is technically a workaround, but it is necessary so that
/// rotation works properly.
#[derive(Debug, Clone, Copy, PartialEq, Eq)]
pub enum RotationMode {
    ForWebRender,
    ForHitTesting,
}

/// Which vector instructions a processor has, once that was looked up.
#[derive(Debug, Clone, Copy, PartialEq, Eq)]
pub struct CpuFeatures {
    pub initialized: bool,
    pub use_avx: bool,
    pub use_sse: bool,
}

impl CpuFeatures {
    /// The features before they were looked up.
    pub open spec fn spec_unknown() -> Self {
        CpuFeatures { initialized: false, use_avx: false, use_sse: false }
    }

    /// The features that the `cpuid` instruction reports. `leaf_count` is `eax` of
    /// leaf 0 (0 where the instruction is missing); `ecx` and `edx` are those of
    /// leaf 1, where bit 28 of `ecx` stands for AVX and bit 25 of `edx` for SSE.
    pub open spec fn spec_detect(leaf_count: u32, ecx: u32, edx: u32) -> Self {
        CpuFeatures {
            initialized: true,
            use_avx: leaf_count > 0 && (ecx & (1u32 << 28u32)) != 0,
            use_sse: leaf_count > 0 && (edx & (1u32 << 25u32)) != 0,
        }
    }

    pub fn unknown() -> (r: Self)
        ensures
            r == Self::spec_unknown(),
    {
        CpuFeatures { initialized: false, use_avx: false, use_sse: false }
    }

    /// Reads the features off the registers that the `cpuid` instruction sets.
    pub fn detect(leaf_count: u32, ecx: u32, edx: u32) -> (r: Self)
        ensures
            r == Self::spec_detect(leaf_count, ecx, edx),
    {
        CpuFeatures {
            initialized: true,
            use_avx: leaf_count > 0 && (ecx & (1u32 << 28u32)) != 0,
            use_sse: leaf_count > 0 && (edx & (1u32 << 25u32)) != 0,
        }
    }
}

/// Computed transform of pixels in pixel space.
#[derive(Debug, Clone, Copy, PartialEq, PartialOrd)]
pub struct ComputedTransform3D<S> {
    pub m: [[S; 4]; 4],
}

/// The `n`-th of the indices 0 to 3 that differ from `k`.
pub open spec fn other_index(k: int, n: int) -> int {
    if n < k { n } else { n + 1 }
}

impl<S: Scalar> ComputedTransform3D<S> {
    /// The entry in row `i` and column `j`.
    pub open spec fn at(self, i: int, j: int) -> S {
        self.m[i][j]
    }

    /// The matrix with the given entries, row by row.
    pub open spec fn spec_new(
        m11: S, m12: S, m13: S, m14: S,
        m21: S, m22: S, m23: S, m24: S,
        m31: S, m32: S, m33: S, m34: S,
        m41: S, m42: S, m43: S, m44: S
    ) -> Self {
        ComputedTransform3D {
            m: [
                [m11, m12, m13, m14],
                [m21, m22, m23, m24],
                [m31, m32, m33, m34],
                [m41, m42, m43, m44],
            ],
        }
    }

    /// The matrix whose entry in row `i` and column `j` is `f(i, j)`.
    #[verifier::opaque]
    pub open spec fn tabulate(f: spec_fn(int, int) -> S) -> Self {
        Self::spec_new(
            f(0, 0), f(0, 1), f(0, 2), f(0, 3),
            f(1, 0), f(1, 1), f(1, 2), f(1, 3),
            f(2, 0), f(2, 1), f(2, 2), f(2, 3),
            f(3, 0), f(3, 1), f(3, 2), f(3, 3),
        )
    }

    /// The matrix that changes nothing.
    pub open spec fn spec_identity() -> Self {
        let z = S::spec_zero();
        let o = S::spec_one();
        Self::spec_new(
            o, z, z, z,
            z, o, z, z,
            z, z, o, z,
            z, z, z, o,
        )
    }

    pub open spec fn spec_new_2d(m11: S, m12: S, m21: S, m22: S, m41: S, m42: S) -> Self {
        let z = S::spec_zero();
        let o = S::spec_one();
        Self::spec_new(
            m11, m12, z, z,
            m21, m22, z, z,
            z, z, o, z,
            m41, m42, z, o,
        )
    }

    pub open spec fn spec_new_scale(x: S, y: S, z: S) -> Self {
        let zero = S::spec_zero();
        let one = S::spec_one();
        Self::spec_new(
            x, zero, zero, zero,
            zero, y, zero, zero,
            zero, zero, z, zero,
            zero, zero, zero, one,
        )
    }

    pub open spec fn spec_new_translation(x: S, y: S, z: S) -> Self {
        let zero = S::spec_zero();
        let one = S::spec_one();
        Self::spec_new(
            one, zero, zero, zero,
            zero, one, zero, zero,
            zero, zero, one, zero,
            x, y, z, one,
        )
    }

    pub open spec fn spec_new_perspective(d: S) -> Self {
        let z = S::spec_zero();
        let o = S::spec_one();
        Self::spec_new(
            o, z, z, z,
            z, o, z, z,
            z, z, o, o.spec_negated().spec_over(d),
            z, z, z, o,
        )
    }

    /// The rotation about the axis (x, y, z) by twice the angle with the given sine and
    /// cosine.
    pub open spec fn spec_rotation_by(x: S, y: S, z: S, sin: S, cos: S) -> Self {
        let zero = S::spec_zero();
        let one = S::spec_one();
        let two = S::spec_two();
        let xx = x.spec_times(x);
        let yy = y.spec_times(y);
        let zz = z.spec_times(z);
        let sc = sin.spec_times(cos);
        let sq = sin.spec_times(sin);
        Self::spec_new(
            one.spec_minus(two.spec_times(yy.spec_plus(zz)).spec_times(sq)),
            two.spec_times(x.spec_times(y).spec_times(sq).spec_plus(z.spec_times(sc))),
            two.spec_times(x.spec_times(z).spec_times(sq).spec_minus(y.spec_times(sc))),
            zero,
            two.spec_times(x.spec_times(y).spec_times(sq).spec_minus(z.spec_times(sc))),
            one.spec_minus(two.spec_times(xx.spec_plus(zz)).spec_times(sq)),
            two.spec_times(y.spec_times(z).spec_times(sq).spec_plus(x.spec_times(sc))),
            zero,
            two.spec_times(x.spec_times(z).spec_times(sq).spec_plus(y.spec_times(sc))),
            two.spec_times(y.spec_times(z).spec_times(sq).spec_minus(x.spec_times(sc))),
            one.spec_minus(two.spec_times(xx.spec_plus(yy)).spec_times(sq)),
            zero,
            zero,
            zero,
            zero,
            one,
        )
    }

    /// The rotation about the axis (x, y, z).
    pub open spec fn spec_new_rotation(x: S, y: S, z: S, theta_radians: S) -> Self {
        let half_theta = theta_radians.spec_over(S::spec_two());
        Self::spec_rotation_by(x, y, z, half_theta.spec_sin(), half_theta.spec_cos())
    }

    pub open spec fn spec_new_skew(alpha: S, beta: S) -> Self {
        let z = S::spec_zero();
        let o = S::spec_one();
        let sx = beta.spec_to_radians().spec_tan();
        let sy = alpha.spec_to_radians().spec_tan();
        Self::spec_new(
            o, sx, z, z,
            sy, o, z, z,
            z, z, o, z,
            z, z, z, o,
        )
    }

    pub fn new(
        m11: S, m12: S, m13: S, m14: S,
        m21: S, m22: S, m23: S, m24: S,
        m31: S, m32: S, m33: S, m34: S,
        m41: S, m42: S, m43: S, m44: S
    ) -> (r: Self)
        ensures
            r == Self::spec_new(
                m11, m12, m13, m14,
                m21, m22, m23, m24,
                m31, m32, m33, m34,
                m41, m42, m43, m44,
            ),
    {
        ComputedTransform3D {
            m: [
                [m11, m12, m13, m14],
                [m21, m22, m23, m24],
                [m31, m32, m33, m34],
                [m41, m42, m43, m44],
            ],
        }
    }

    pub fn identity() -> (r: Self)
        ensures
            r == Self::spec_identity(),
    {
        let z: S = S::zero();
        let o: S = S::one();
        Self::new(
            o, z, z, z,
            z, o, z, z,
            z, z, o, z,
            z, z, z, o,
        )
    }

    pub fn new_2d(m11: S, m12: S, m21: S, m22: S, m41: S, m42: S) -> (r: Self)
        ensures
            r == Self::spec_new_2d(m11, m12, m21, m22, m41, m42),
    {
        let z: S = S::zero();
        let o: S = S::one();
        Self::new(
            m11, m12, z, z,
            m21, m22, z, z,
            z, z, o, z,
            m41, m42, z, o,
        )
    }

    pub fn new_scale(x: S, y: S, z: S) -> (r: Self)
        ensures
            r == Self::spec_new_scale(x, y, z),
    {
        let zero: S = S::zero();
        let one: S = S::one();
        Self::new(
            x, zero, zero, zero,
            zero, y, zero, zero,
            zero, zero, z, zero,
            zero, zero, zero, one,
        )
    }

    pub fn new_translation(x: S, y: S, z: S) -> (r: Self)
        ensures
            r == Self::spec_new_translation(x, y, z),
    {
        let zero: S = S::zero();
        let one: S = S::one();
        Self::new(
            one, zero, zero, zero,
            zero, one, zero, zero,
            zero, zero, one, zero,
            x, y, z, one,
        )
    }

    pub fn new_perspective(d: S) -> (r: Self)
        ensures
            r == Self::spec_new_perspective(d),
    {
        let z: S = S::zero();
        let o: S = S::one();
        Self::new(
            o, z, z, z,
            z, o, z, z,
            z, z, o, o.negated().over(d),
            z, z, z, o,
        )
    }

    /// Creates a 3D rotation transform from an axis and an angle.
    /// The supplied axis must be normalized.
    pub fn new_rotation(x: S, y: S, z: S, theta_radians: S) -> (r: Self)
        ensures
            r == Self::spec_new_rotation(x, y, z, theta_radians),
    {
        let zero: S = S::zero();
        let one: S = S::one();
        let two: S = S::two();
        let xx: S = x.times(x);
        let yy: S = y.times(y);
        let zz: S = z.times(z);
        let half_theta: S = theta_radians.over(S::two());
        let sc: S = half_theta.sin().times(half_theta.cos());
        let sq: S = half_theta.sin().times(half_theta.sin());
        Self::new(
            one.minus(two.times(yy.plus(zz)).times(sq)),
            two.times(x.times(y).times(sq).plus(z.times(sc))),
            two.times(x.times(z).times(sq).minus(y.times(sc))),
            zero,
            two.times(x.times(y).times(sq).minus(z.times(sc))),
            one.minus(two.times(xx.plus(zz)).times(sq)),
            two.times(y.times(z).times(sq).plus(x.times(sc))),
            zero,
            two.times(x.times(z).times(sq).plus(y.times(sc))),
            two.times(y.times(z).times(sq).minus(x.times(sc))),
            one.minus(two.times(xx.plus(yy)).times(sq)),
            zero,
            zero,
            zero,
            zero,
            one,
        )
    }

    /// Creates a skew by two angles in degrees.
    pub fn new_skew(alpha: S, beta: S) -> (r: Self)
        ensures
            r == Self::spec_new_skew(alpha, beta),
    {
        let z: S = S::zero();
        let o: S = S::one();
        let sx: S = beta.to_radians().tan();
        let sy: S = alpha.to_radians().tan();
        Self::new(
            o, sx, z, z,
            sy, o, z, z,
            z, z, o, z,
            z, z, z, o,
        )
    }

    /// Row `i` of the matrix, applied to column `j` of `other`.
    pub open spec fn product_entry(self, other: Self, i: int, j: int) -> S {
        self.at(i, 0).spec_mul_add(
            other.at(0, j),
            self.at(i, 1).spec_mul_add(
                other.at(1, j),
                self.at(i, 2).spec_mul_add(
                    other.at(2, j),
                    self.at(i, 3).spec_times(other.at(3, j)),
                ),
            ),
        )
    }

    /// The product of the two matrices.
    pub open spec fn spec_followed_by(self, other: Self) -> Self {
        Self::tabulate(|i: int, j: int| self.product_entry(other, i, j))
    }

    fn multiply_entry(&self, other: &Self, i: usize, j: usize) -> (r: S)
        requires
            i < 4,
            j < 4,
        ensures
            r == self.product_entry(*other, i as int, j as int),
    {
        self.m[i][0].mul_add(
            other.m[0][j],
            self.m[i][1].mul_add(
                other.m[1][j],
                self.m[i][2].mul_add(other.m[2][j], self.m[i][3].times(other.m[3][j])),
            ),
        )
    }

    /// Combines two matrices, applying `other` AFTER the current matrix.
    #[must_use]
    pub fn followed_by(&self, other: &Self) -> (r: Self)
        ensures
            r == self.spec_followed_by(*other),
            forall|i: int, j: int|
                0 <= i < 4 && 0 <= j < 4 ==> #[trigger] r.m[i][j] == self.product_entry(
                    *other,
                    i,
                    j,
                ),
    {
        proof {
            reveal(ComputedTransform3D::tabulate);
        }
        Self::new(
            self.multiply_entry(other, 0, 0),
            self.multiply_entry(other, 0, 1),
            self.multiply_entry(other, 0, 2),
            self.multiply_entry(other, 0, 3),
            self.multiply_entry(other, 1, 0),
            self.multiply_entry(other, 1, 1),
            self.multiply_entry(other, 1, 2),
            self.multiply_entry(other, 1, 3),
            self.multiply_entry(other, 2, 0),
            self.multiply_entry(other, 2, 1),
            self.multiply_entry(other, 2, 2),
            self.multiply_entry(other, 2, 3),
            self.multiply_entry(other, 3, 0),
            self.multiply_entry(other, 3, 1),
            self.multiply_entry(other, 3, 2),
            self.multiply_entry(other, 3, 3),
        )
    }

    /// `a[0] * B.row[0] + a[1] * B.row[1] + a[2] * B.row[2] + a[3] * B.row[3]`,
    /// in column `j`.
    pub open spec fn combination(a: Seq<S>, b: Self, j: int) -> S {
        a[0].spec_times(b.at(0, j)).spec_plus(a[1].spec_times(b.at(1, j))).spec_plus(
            a[2].spec_times(b.at(2, j)),
        ).spec_plus(a[3].spec_times(b.at(3, j)))
    }

    /// The product of the two matrices, as the vector instructions compute it.
    pub open spec fn spec_then_sse(self, other: Self) -> Self {
        Self::tabulate(|i: int, j: int| Self::combination(self.m[i]@, other, j))
    }

    fn combine(a0: S, a1: S, a2: S, a3: S, b: &Self, j: usize) -> (r: S)
        requires
            j < 4,
        ensures
            r == Self::combination(seq![a0, a1, a2, a3], *b, j as int),
    {
        a0.times(b.m[0][j]).plus(a1.times(b.m[1][j])).plus(a2.times(b.m[2][j])).plus(
            a3.times(b.m[3][j]),
        )
    }

    /// The linear combination of the rows of `b` with the coefficients `a`.
    pub fn linear_combine_sse(a: [S; 4], b: &Self) -> (r: [S; 4])
        ensures
            forall|j: int| 0 <= j < 4 ==> #[trigger] r[j] == Self::combination(a@, *b, j),
    {
        assert(a@ =~= seq![a[0], a[1], a[2], a[3]]);
        [
            Self::combine(a[0], a[1], a[2], a[3], b, 0),
            Self::combine(a[0], a[1], a[2], a[3], b, 1),
            Self::combine(a[0], a[1], a[2], a[3], b, 2),
            Self::combine(a[0], a[1], a[2], a[3], b, 3),
        ]
    }

    /// Combines two matrices row by row, applying `other` AFTER the current matrix.
    pub fn then_sse(&self, other: &Self) -> (r: Self)
        ensures
            r == self.spec_then_sse(*other),
            forall|i: int, j: int|
                0 <= i < 4 && 0 <= j < 4 ==> #[trigger] r.m[i][j] == Self::combination(
                    self.m[i]@,
                    *other,
                    j,
                ),
    {
        let r: Self = ComputedTransform3D {
            m: [
                Self::linear_combine_sse(self.m[0], other),
                Self::linear_combine_sse(self.m[1], other),
                Self::linear_combine_sse(self.m[2], other),
                Self::linear_combine_sse(self.m[3], other),
            ],
        };
        proof {
            lemma_tabulate_at(|i: int, j: int| Self::combination(self.m[i]@, *other, j));
            lemma_matrix_equal(r, self.spec_then_sse(*other));
        }
        r
    }

    /// The linear combinations of the rows of `b` with the first four and with the
    /// last four of the coefficients `a01`.
    pub fn linear_combine_avx8(a01: [S; 8], b: &Self) -> (r: [S; 8])
        ensures
            forall|j: int|
                0 <= j < 4 ==> #[trigger] r[j] == Self::combination(a01@.subrange(0, 4), *b, j),
            forall|j: int|
                4 <= j < 8 ==> #[trigger] r[j] == Self::combination(a01@.subrange(4, 8), *b, j - 4),
    {
        assert(a01@.subrange(0, 4) =~= seq![a01[0], a01[1], a01[2], a01[3]]);
        assert(a01@.subrange(4, 8) =~= seq![a01[4], a01[5], a01[6], a01[7]]);
        [
            Self::combine(a01[0], a01[1], a01[2], a01[3], b, 0),
            Self::combine(a01[0], a01[1], a01[2], a01[3], b, 1),
            Self::combine(a01[0], a01[1], a01[2], a01[3], b, 2),
            Self::combine(a01[0], a01[1], a01[2], a01[3], b, 3),
            Self::combine(a01[4], a01[5], a01[6], a01[7], b, 0),
            Self::combine(a01[4], a01[5], a01[6], a01[7], b, 1),
            Self::combine(a01[4], a01[5], a01[6], a01[7], b, 2),
            Self::combine(a01[4], a01[5], a01[6], a01[7], b, 3),
        ]
    }

    /// Two neighbouring rows as one vector.
    fn row_pair(upper: [S; 4], lower: [S; 4]) -> (r: [S; 8])
        ensures
            r@.subrange(0, 4) == upper@,
            r@.subrange(4, 8) == lower@,
    {
        let r: [S; 8] = [
            upper[0], upper[1], upper[2], upper[3], lower[0], lower[1], lower[2], lower[3],
        ];
        assert(r@.subrange(0, 4) =~= upper@);
        assert(r@.subrange(4, 8) =~= lower@);
        r
    }

    /// Combines two matrices two rows at a time, applying `other` AFTER the current
    /// matrix. The result is that of [`Self::then_sse`].
    pub fn then_avx8(&self, other: &Self) -> (r: Self)
        ensures
            r == self.spec_then_sse(*other),
            forall|i: int, j: int|
                0 <= i < 4 && 0 <= j < 4 ==> #[trigger] r.m[i][j] == Self::combination(
                    self.m[i]@,
                    *other,
                    j,
                ),
    {
        let a01: [S; 8] = Self::row_pair(self.m[0], self.m[1]);
        let a23: [S; 8] = Self::row_pair(self.m[2], self.m[3]);
        let out01: [S; 8] = Self::linear_combine_avx8(a01, other);
        let out23: [S; 8] = Self::linear_combine_avx8(a23, other);
        let r: Self = ComputedTransform3D {
            m: [
                [out01[0], out01[1], out01[2], out01[3]],
                [out01[4], out01[5], out01[6], out01[7]],
                [out23[0], out23[1], out23[2], out23[3]],
                [out23[4], out23[5], out23[6], out23[7]],
            ],
        };
        proof {
            lemma_tabulate_at(|i: int, j: int| Self::combination(self.m[i]@, *other, j));
            lemma_matrix_equal(r, self.spec_then_sse(*other));
        }
        r
    }

    /// The product of the entries in row 0 and column `c0`, row 1 and column `c1`,
    /// row 2 and column `c2`, row 3 and column `c3`.
    pub open spec fn product4(self, c0: int, c1: int, c2: int, c3: int) -> S {
        self.at(0, c0).spec_times(self.at(1, c1)).spec_times(self.at(2, c2)).spec_times(
            self.at(3, c3),
        )
    }

    /// The determinant, by its 24 terms.
    pub open spec fn spec_determinant(self) -> S {
        self.product4(3, 2, 1, 0)
            .spec_minus(self.product4(2, 3, 1, 0))
            .spec_minus(self.product4(3, 1, 2, 0))
            .spec_plus(self.product4(1, 3, 2, 0))
            .spec_plus(self.product4(2, 1, 3, 0))
            .spec_minus(self.product4(1, 2, 3, 0))
            .spec_minus(self.product4(3, 2, 0, 1))
            .spec_plus(self.product4(2, 3, 0, 1))
            .spec_plus(self.product4(3, 0, 2, 1))
            .spec_minus(self.product4(0, 3, 2, 1))
            .spec_minus(self.product4(2, 0, 3, 1))
            .spec_plus(self.product4(0, 2, 3, 1))
            .spec_plus(self.product4(3, 1, 0, 2))
            .spec_minus(self.product4(1, 3, 0, 2))
            .spec_minus(self.product4(3, 0, 1, 2))
            .spec_plus(self.product4(0, 3, 1, 2))
            .spec_plus(self.product4(1, 0, 3, 2))
            .spec_minus(self.product4(0, 1, 3, 2))
            .spec_minus(self.product4(2, 1, 0, 3))
            .spec_plus(self.product4(1, 2, 0, 3))
            .spec_plus(self.product4(2, 0, 1, 3))
            .spec_minus(self.product4(0, 2, 1, 3))
            .spec_minus(self.product4(1, 0, 2, 3))
            .spec_plus(self.product4(0, 1, 2, 3))
    }

    fn quad(&self, c0: usize, c1: usize, c2: usize, c3: usize) -> (r: S)
        requires
            c0 < 4,
            c1 < 4,
            c2 < 4,
            c3 < 4,
        ensures
            r == self.product4(c0 as int, c1 as int, c2 as int, c3 as int),
    {
        self.m[0][c0].times(self.m[1][c1]).times(self.m[2][c2]).times(self.m[3][c3])
    }

    pub fn determinant(&self) -> (r: S)
        ensures
            r == self.spec_determinant(),
    {
        self.quad(3, 2, 1, 0)
            .minus(self.quad(2, 3, 1, 0))
            .minus(self.quad(3, 1, 2, 0))
            .plus(self.quad(1, 3, 2, 0))
            .plus(self.quad(2, 1, 3, 0))
            .minus(self.quad(1, 2, 3, 0))
            .minus(self.quad(3, 2, 0, 1))
            .plus(self.quad(2, 3, 0, 1))
            .plus(self.quad(3, 0, 2, 1))
            .minus(self.quad(0, 3, 2, 1))
            .minus(self.quad(2, 0, 3, 1))
            .plus(self.quad(0, 2, 3, 1))
            .plus(self.quad(3, 1, 0, 2))
            .minus(self.quad(1, 3, 0, 2))
            .minus(self.quad(3, 0, 1, 2))
            .plus(self.quad(0, 3, 1, 2))
            .plus(self.quad(1, 0, 3, 2))
            .minus(self.quad(0, 1, 3, 2))
            .minus(self.quad(2, 1, 0, 3))
            .plus(self.quad(1, 2, 0, 3))
            .plus(self.quad(2, 0, 1, 3))
            .minus(self.quad(0, 2, 1, 3))
            .minus(self.quad(1, 0, 2, 3))
            .plus(self.quad(0, 1, 2, 3))
    }

    /// The product of the entries in row `other_index(j, n)` and column `cn`, for
    /// `n` from 0 to 2.
    pub open spec fn product3(self, j: int, c0: int, c1: int, c2: int) -> S {
        self.at(other_index(j, 0), c0).spec_times(self.at(other_index(j, 1), c1)).spec_times(
            self.at(other_index(j, 2), c2),
        )
    }

    /// The entry in row `i` and column `j` of the adjugate: the minor without row
    /// `j` and column `i`, with the sign of a checkerboard.
    pub open spec fn adjugate_entry(self, i: int, j: int) -> S {
        let c0 = other_index(i, 0);
        let c1 = other_index(i, 1);
        let c2 = other_index(i, 2);
        if (i + j) % 2 == 0 {
            self.product3(j, c1, c2, c0).spec_minus(self.product3(j, c2, c1, c0)).spec_plus(
                self.product3(j, c2, c0, c1),
            ).spec_minus(self.product3(j, c0, c2, c1)).spec_minus(
                self.product3(j, c1, c0, c2),
            ).spec_plus(self.product3(j, c0, c1, c2))
        } else {
            self.product3(j, c2, c1, c0).spec_minus(self.product3(j, c1, c2, c0)).spec_minus(
                self.product3(j, c2, c0, c1),
            ).spec_plus(self.product3(j, c0, c2, c1)).spec_plus(
                self.product3(j, c1, c0, c2),
            ).spec_minus(self.product3(j, c0, c1, c2))
        }
    }

    /// The adjugate matrix.
    pub open spec fn spec_adjugate(self) -> Self {
        Self::tabulate(|i: int, j: int| self.adjugate_entry(i, j))
    }

    /// The matrix with every entry multiplied by `x`.
    pub open spec fn spec_multiply_scalar(self, x: S) -> Self {
        Self::tabulate(|i: int, j: int| self.at(i, j).spec_times(x))
    }

    /// The adjugate, divided by the determinant.
    pub open spec fn spec_inverse(self) -> Self {
        self.spec_adjugate().spec_multiply_scalar(
            S::spec_one().spec_over(self.spec_determinant()),
        )
    }

    fn other(k: usize, n: usize) -> (r: usize)
        requires
            k < 4,
            n < 3,
        ensures
            r == other_index(k as int, n as int),
            r < 4,
    {
        if n < k { n } else { n + 1 }
    }

    fn triple(&self, j: usize, c0: usize, c1: usize, c2: usize) -> (r: S)
        requires
            j < 4,
            c0 < 4,
            c1 < 4,
            c2 < 4,
        ensures
            r == self.product3(j as int, c0 as int, c1 as int, c2 as int),
    {
        self.m[Self::other(j, 0)][c0].times(self.m[Self::other(j, 1)][c1]).times(
            self.m[Self::other(j, 2)][c2],
        )
    }

    fn cofactor(&self, i: usize, j: usize) -> (r: S)
        requires
            i < 4,
            j < 4,
        ensures
            r == self.adjugate_entry(i as int, j as int),
    {
        let c0: usize = Self::other(i, 0);
        let c1: usize = Self::other(i, 1);
        let c2: usize = Self::other(i, 2);
        if (i + j) % 2 == 0 {
            self.triple(j, c1, c2, c0).minus(self.triple(j, c2, c1, c0)).plus(
                self.triple(j, c2, c0, c1),
            ).minus(self.triple(j, c0, c2, c1)).minus(self.triple(j, c1, c0, c2)).plus(
                self.triple(j, c0, c1, c2),
            )
        } else {
            self.triple(j, c2, c1, c0).minus(self.triple(j, c1, c2, c0)).minus(
                self.triple(j, c2, c0, c1),
            ).plus(self.triple(j, c0, c2, c1)).plus(self.triple(j, c1, c0, c2)).minus(
                self.triple(j, c0, c1, c2),
            )
        }
    }

    /// The inverse transform. A matrix whose determinant is 0 has none: the result
    /// then holds whatever the division by 0 gives.
    pub fn inverse(&self) -> (r: Self)
        ensures
            r == self.spec_inverse(),
            forall|i: int, j: int|
                0 <= i < 4 && 0 <= j < 4 ==> #[trigger] r.m[i][j] == self.adjugate_entry(
                    i,
                    j,
                ).spec_times(S::spec_one().spec_over(self.spec_determinant())),
    {
        proof {
            reveal(ComputedTransform3D::tabulate);
        }
        let det: S = self.determinant();
        let m: Self = Self::new(
            self.cofactor(0, 0),
            self.cofactor(0, 1),
            self.cofactor(0, 2),
            self.cofactor(0, 3),
            self.cofactor(1, 0),
            self.cofactor(1, 1),
            self.cofactor(1, 2),
            self.cofactor(1, 3),
            self.cofactor(2, 0),
            self.cofactor(2, 1),
            self.cofactor(2, 2),
            self.cofactor(2, 3),
            self.cofactor(3, 0),
            self.cofactor(3, 1),
            self.cofactor(3, 2),
            self.cofactor(3, 3),
        );
        m.multiply_scalar(S::one().over(det))
    }

    pub fn multiply_scalar(&self, x: S) -> (r: Self)
        ensures
            r == self.spec_multiply_scalar(x),
            forall|i: int, j: int|
                0 <= i < 4 && 0 <= j < 4 ==> #[trigger] r.m[i][j] == self.m[i][j].spec_times(x),
    {
        proof {
            reveal(ComputedTransform3D::tabulate);
        }
        Self::new(
            self.m[0][0].times(x),
            self.m[0][1].times(x),
            self.m[0][2].times(x),
            self.m[0][3].times(x),
            self.m[1][0].times(x),
            self.m[1][1].times(x),
            self.m[1][2].times(x),
            self.m[1][3].times(x),
            self.m[2][0].times(x),
            self.m[2][1].times(x),
            self.m[2][2].times(x),
            self.m[2][3].times(x),
            self.m[3][0].times(x),
            self.m[3][1].times(x),
            self.m[3][2].times(x),
            self.m[3][3].times(x),
        )
    }

    /// The image of a point, unless it lies behind the viewer.
    pub open spec fn spec_transform_point2d(self, p: LogicalPosition<S>) -> Option<
        LogicalPosition<S>,
    > {
        let w = p.x.spec_mul_add(self.at(0, 3), p.y.spec_mul_add(self.at(1, 3), self.at(3, 3)));
        let x = p.x.spec_mul_add(self.at(0, 0), p.y.spec_mul_add(self.at(1, 0), self.at(3, 0)));
        let y = p.x.spec_mul_add(self.at(0, 1), p.y.spec_mul_add(self.at(1, 1), self.at(3, 1)));
        if w.spec_is_sign_positive() {
            Some(LogicalPosition { x: x.spec_over(w), y: y.spec_over(w) })
        } else {
            None
        }
    }

    /// Transforms a 2D point into the target coordinate space.
    #[must_use]
    pub fn transform_point2d(&self, p: LogicalPosition<S>) -> (r: Option<LogicalPosition<S>>)
        ensures
            r == self.spec_transform_point2d(p),
    {
        let w: S = p.x.mul_add(self.m[0][3], p.y.mul_add(self.m[1][3], self.m[3][3]));
        if !w.is_sign_positive() {
            return None;
        }
        let x: S = p.x.mul_add(self.m[0][0], p.y.mul_add(self.m[1][0], self.m[3][0]));
        let y: S = p.x.mul_add(self.m[0][1], p.y.mul_add(self.m[1][1], self.m[3][1]));
        Some(LogicalPosition { x: x.over(w), y: y.over(w) })
    }

    /// The angle in radians by which a rotation of the given degrees turns: a full turn
    /// less the degrees. Rendering turns by the negated degrees, because rotations of a
    /// style are clockwise; hit testing turns counter-clockwise.
    pub open spec fn spec_theta(degrees: S, rotation_mode: RotationMode) -> S {
        let directed = match rotation_mode {
            RotationMode::ForWebRender => degrees.spec_negated(),
            RotationMode::ForHitTesting => degrees,
        };
        S::spec_two().spec_times(S::spec_pi()).spec_minus(directed.spec_to_radians())
    }

    /// The rotation about an axis through `rotation_origin`: the origin is moved to
    /// (0, 0), the rotation is applied, and the origin is moved back.
    pub open spec fn spec_make_rotation(
        rotation_origin: (S, S),
        degrees: S,
        axis_x: S,
        axis_y: S,
        axis_z: S,
        rotation_mode: RotationMode,
    ) -> Self {
        let (x, y) = rotation_origin;
        let pre_transform = Self::spec_new_translation(
            x.spec_negated(),
            y.spec_negated(),
            S::spec_zero().spec_negated(),
        );
        let post_transform = Self::spec_new_translation(x, y, S::spec_zero());
        let rotate_transform = Self::spec_new_rotation(
            axis_x,
            axis_y,
            axis_z,
            Self::spec_theta(degrees, rotation_mode),
        ).spec_followed_by(Self::spec_identity());
        pre_transform.spec_followed_by(rotate_transform).spec_followed_by(post_transform)
    }

    pub fn make_rotation(
        rotation_origin: (S, S),
        degrees: S,
        axis_x: S,
        axis_y: S,
        axis_z: S,
        // see documentation for RotationMode
        rotation_mode: RotationMode,
    ) -> (r: Self)
        ensures
            r == Self::spec_make_rotation(
                rotation_origin,
                degrees,
                axis_x,
                axis_y,
                axis_z,
                rotation_mode,
            ),
    {
        let directed: S = match rotation_mode {
            // rotations of a style are clockwise
            RotationMode::ForWebRender => degrees.negated(),
            // hit testing turns counter-clockwise
            RotationMode::ForHitTesting => degrees,
        };
        let (origin_x, origin_y) = rotation_origin;
        let pre_transform: Self = Self::new_translation(
            origin_x.negated(),
            origin_y.negated(),
            S::zero().negated(),
        );
        let post_transform: Self = Self::new_translation(origin_x, origin_y, S::zero());
        let theta: S = S::two().times(S::pi()).minus(directed.to_radians());
        let rotate_transform: Self = Self::new_rotation(axis_x, axis_y, axis_z, theta)
            .followed_by(&Self::identity());
        pre_transform.followed_by(&rotate_transform).followed_by(&post_transform)
    }

    /// The transform of one function of a `transform` property. Percentages are
    /// resolved against `percent_resolve_y` where they measure along the y axis,
    /// and against `percent_resolve_x` everywhere else.
    pub open spec fn spec_from_style_transform(
        t: StyleTransform<S>,
        transform_origin: StyleTransformOrigin<S>,
        percent_resolve_x: S,
        percent_resolve_y: S,
        rotation_mode: RotationMode,
    ) -> Self {
        let zero = S::spec_zero();
        let one = S::spec_one();
        let origin = (
            transform_origin.x.pixels(percent_resolve_x),
            transform_origin.y.pixels(percent_resolve_y),
        );
        match t {
            StyleTransform::Matrix(m) => Self::spec_new_2d(
                m.a.pixels(percent_resolve_x),
                m.b.pixels(percent_resolve_x),
                m.c.pixels(percent_resolve_x),
                m.d.pixels(percent_resolve_x),
                m.tx.pixels(percent_resolve_x),
                m.ty.pixels(percent_resolve_x),
            ),
            StyleTransform::Matrix3D(m) => Self::spec_new(
                    m.m11.pixels(percent_resolve_x),
                    m.m12.pixels(percent_resolve_x),
                    m.m13.pixels(percent_resolve_x),
                    m.m14.pixels(percent_resolve_x),
                    m.m21.pixels(percent_resolve_x),
                    m.m22.pixels(percent_resolve_x),
                    m.m23.pixels(percent_resolve_x),
                    m.m24.pixels(percent_resolve_x),
                    m.m31.pixels(percent_resolve_x),
                    m.m32.pixels(percent_resolve_x),
                    m.m33.pixels(percent_resolve_x),
                    m.m34.pixels(percent_resolve_x),
                    m.m41.pixels(percent_resolve_x),
                    m.m42.pixels(percent_resolve_x),
                    m.m43.pixels(percent_resolve_x),
                    m.m44.pixels(percent_resolve_x),
                ),
            StyleTransform::Translate(d) => Self::spec_new_translation(
                d.x.pixels(percent_resolve_x),
                d.y.pixels(percent_resolve_y),
                zero,
            ),
            StyleTransform::Translate3D(d) => Self::spec_new_translation(
                d.x.pixels(percent_resolve_x),
                d.y.pixels(percent_resolve_y),
                d.z.pixels(percent_resolve_x),
            ),
            StyleTransform::TranslateX(x) => Self::spec_new_translation(
                x.pixels(percent_resolve_x),
                zero,
                zero,
            ),
            StyleTransform::TranslateY(y) => Self::spec_new_translation(
                zero,
                y.pixels(percent_resolve_y),
                zero,
            ),
            StyleTransform::TranslateZ(z) => Self::spec_new_translation(
                zero,
                zero,
                z.pixels(percent_resolve_x),
            ),
            StyleTransform::Rotate3D(rot) => Self::spec_make_rotation(
                origin,
                rot.angle,
                rot.x,
                rot.y,
                rot.z,
                rotation_mode,
            ),
            StyleTransform::RotateX(angle) => Self::spec_make_rotation(
                origin,
                angle,
                one,
                zero,
                zero,
                rotation_mode,
            ),
            StyleTransform::RotateY(angle) => Self::spec_make_rotation(
                origin,
                angle,
                zero,
                one,
                zero,
                rotation_mode,
            ),
            StyleTransform::Rotate(angle) => Self::spec_make_rotation(
                origin,
                angle,
                zero,
                zero,
                one,
                rotation_mode,
            ),
            StyleTransform::RotateZ(angle) => Self::spec_make_rotation(
                origin,
                angle,
                zero,
                zero,
                one,
                rotation_mode,
            ),
            StyleTransform::Scale(s) => Self::spec_new_scale(s.x, s.y, zero),
            StyleTransform::Scale3D(s) => Self::spec_new_scale(s.x, s.y, s.z),
            StyleTransform::ScaleX(x) => Self::spec_new_scale(x, zero, zero),
            StyleTransform::ScaleY(y) => Self::spec_new_scale(zero, y, zero),
            StyleTransform::ScaleZ(z) => Self::spec_new_scale(zero, zero, z),
            StyleTransform::Skew(s) => Self::spec_new_skew(s.x, s.y),
            StyleTransform::SkewX(x) => Self::spec_new_skew(x, zero),
            StyleTransform::SkewY(y) => Self::spec_new_skew(zero, y),
            StyleTransform::Perspective(d) => Self::spec_new_perspective(
                d.pixels(percent_resolve_x),
            ),
        }
    }

    /// Creates a new transform from a style transform, using the size of the parent
    /// to resolve percentages.
    pub fn from_style_transform(
        t: &StyleTransform<S>,
        transform_origin: &StyleTransformOrigin<S>,
        percent_resolve_x: S,
        percent_resolve_y: S,
        rotation_mode: RotationMode,
    ) -> (r: Self)
        ensures
            r == Self::spec_from_style_transform(
                *t,
                *transform_origin,
                percent_resolve_x,
                percent_resolve_y,
                rotation_mode,
            ),
    {
        let zero: S = S::zero();
        let one: S = S::one();
        match t {
            StyleTransform::Matrix(m) => Self::new_2d(
                m.a.to_pixels(percent_resolve_x),
                m.b.to_pixels(percent_resolve_x),
                m.c.to_pixels(percent_resolve_x),
                m.d.to_pixels(percent_resolve_x),
                m.tx.to_pixels(percent_resolve_x),
                m.ty.to_pixels(percent_resolve_x),
            ),
            StyleTransform::Matrix3D(m) => Self::new(
                    m.m11.to_pixels(percent_resolve_x),
                    m.m12.to_pixels(percent_resolve_x),
                    m.m13.to_pixels(percent_resolve_x),
                    m.m14.to_pixels(percent_resolve_x),
                    m.m21.to_pixels(percent_resolve_x),
                    m.m22.to_pixels(percent_resolve_x),
                    m.m23.to_pixels(percent_resolve_x),
                    m.m24.to_pixels(percent_resolve_x),
                    m.m31.to_pixels(percent_resolve_x),
                    m.m32.to_pixels(percent_resolve_x),
                    m.m33.to_pixels(percent_resolve_x),
                    m.m34.to_pixels(percent_resolve_x),
                    m.m41.to_pixels(percent_resolve_x),
                    m.m42.to_pixels(percent_resolve_x),
                    m.m43.to_pixels(percent_resolve_x),
                    m.m44.to_pixels(percent_resolve_x),
                ),
            StyleTransform::Translate(d) => Self::new_translation(
                d.x.to_pixels(percent_resolve_x),
                d.y.to_pixels(percent_resolve_y),
                zero,
            ),
            StyleTransform::Translate3D(d) => Self::new_translation(
                d.x.to_pixels(percent_resolve_x),
                d.y.to_pixels(percent_resolve_y),
                d.z.to_pixels(percent_resolve_x),
            ),
            StyleTransform::TranslateX(x) => Self::new_translation(
                x.to_pixels(percent_resolve_x),
                zero,
                zero,
            ),
            StyleTransform::TranslateY(y) => Self::new_translation(
                zero,
                y.to_pixels(percent_resolve_y),
                zero,
            ),
            StyleTransform::TranslateZ(z) => Self::new_translation(
                zero,
                zero,
                z.to_pixels(percent_resolve_x),
            ),
            StyleTransform::Rotate3D(rot) => Self::make_rotation(
                (
                    transform_origin.x.to_pixels(percent_resolve_x),
                    transform_origin.y.to_pixels(percent_resolve_y),
                ),
                rot.angle,
                rot.x,
                rot.y,
                rot.z,
                rotation_mode,
            ),
            StyleTransform::RotateX(angle) => Self::make_rotation(
                (
                    transform_origin.x.to_pixels(percent_resolve_x),
                    transform_origin.y.to_pixels(percent_resolve_y),
                ),
                *angle,
                one,
                zero,
                zero,
                rotation_mode,
            ),
            StyleTransform::RotateY(angle) => Self::make_rotation(
                (
                    transform_origin.x.to_pixels(percent_resolve_x),
                    transform_origin.y.to_pixels(percent_resolve_y),
                ),
                *angle,
                zero,
                one,
                zero,
                rotation_mode,
            ),
            StyleTransform::Rotate(angle) | StyleTransform::RotateZ(angle) => Self::make_rotation(
                (
                    transform_origin.x.to_pixels(percent_resolve_x),
                    transform_origin.y.to_pixels(percent_resolve_y),
                ),
                *angle,
                zero,
                zero,
                one,
                rotation_mode,
            ),
            StyleTransform::Scale(s) => Self::new_scale(s.x, s.y, zero),
            StyleTransform::Scale3D(s) => Self::new_scale(s.x, s.y, s.z),
            StyleTransform::ScaleX(x) => Self::new_scale(*x, zero, zero),
            StyleTransform::ScaleY(y) => Self::new_scale(zero, *y, zero),
            StyleTransform::ScaleZ(z) => Self::new_scale(zero, zero, *z),
            StyleTransform::Skew(s) => Self::new_skew(s.x, s.y),
            StyleTransform::SkewX(x) => Self::new_skew(*x, zero),
            StyleTransform::SkewY(y) => Self::new_skew(zero, *y),
            StyleTransform::Perspective(d) => Self::new_perspective(
                d.to_pixels(percent_resolve_x),
            ),
        }
    }

    /// The product that the features of the processor select.
    pub open spec fn spec_then_on(self, other: Self, cpu: CpuFeatures) -> Self {
        if cpu.initialized && (cpu.use_avx || cpu.use_sse) {
            self.spec_then_sse(other)
        } else {
            self.spec_followed_by(other)
        }
    }

    /// The transforms of all functions of a `transform` property, one applied after
    /// the other.
    pub open spec fn spec_from_style_transform_vec(
        t_vec: Seq<StyleTransform<S>>,
        transform_origin: StyleTransformOrigin<S>,
        percent_resolve_x: S,
        percent_resolve_y: S,
        rotation_mode: RotationMode,
        cpu: CpuFeatures,
    ) -> Self
        decreases t_vec.len(),
    {
        if t_vec.len() == 0 {
            Self::spec_identity()
        } else {
            Self::spec_from_style_transform_vec(
                t_vec.drop_last(),
                transform_origin,
                percent_resolve_x,
                percent_resolve_y,
                rotation_mode,
                cpu,
            ).spec_then_on(
                Self::spec_from_style_transform(
                    t_vec.last(),
                    transform_origin,
                    percent_resolve_x,
                    percent_resolve_y,
                    rotation_mode,
                ),
                cpu,
            )
        }
    }

    /// Computes the matrix of a rect from the functions of its `transform` property.
    pub fn from_style_transform_vec(
        t_vec: &[StyleTransform<S>],
        transform_origin: &StyleTransformOrigin<S>,
        percent_resolve_x: S,
        percent_resolve_y: S,
        rotation_mode: RotationMode,
        cpu: CpuFeatures,
    ) -> (r: Self)
        ensures
            r == Self::spec_from_style_transform_vec(
                t_vec@,
                *transform_origin,
                percent_resolve_x,
                percent_resolve_y,
                rotation_mode,
                cpu,
            ),
    {
        let mut matrix: Self = Self::identity();
        let mut k: usize = 0;
        while k < t_vec.len()
            invariant
                k <= t_vec.len(),
                matrix == Self::spec_from_style_transform_vec(
                    t_vec@.take(k as int),
                    *transform_origin,
                    percent_resolve_x,
                    percent_resolve_y,
                    rotation_mode,
                    cpu,
                ),
            decreases t_vec.len() - k,
        {
            let next: Self = Self::from_style_transform(
                &t_vec[k],
                transform_origin,
                percent_resolve_x,
                percent_resolve_y,
                rotation_mode,
            );
            if cpu.initialized && cpu.use_avx {
                matrix = matrix.then_avx8(&next);
            } else if cpu.initialized && cpu.use_sse {
                matrix = matrix.then_sse(&next);
            } else {
                matrix = matrix.followed_by(&next);
            }
            assert(t_vec@.take(k + 1).drop_last() =~= t_vec@.take(k as int));
            assert(t_vec@.take(k + 1).last() == t_vec@[k as int]);
            k += 1;
        }
        assert(t_vec@.take(t_vec.len() as int) =~= t_vec@);
        matrix
    }
}

/// The entries of a tabulated matrix.
pub proof fn lemma_tabulate_at<S: Scalar>(f: spec_fn(int, int) -> S)
    ensures
        forall|i: int, j: int|
            0 <= i < 4 && 0 <= j < 4 ==> #[trigger] ComputedTransform3D::tabulate(f).at(i, j) == f(
                i,
                j,
            ),
{
    reveal(ComputedTransform3D::tabulate);
}

/// Matrices with equal entries are equal.
pub proof fn lemma_matrix_equal<S: Scalar>(a: ComputedTransform3D<S>, b: ComputedTransform3D<S>)
    requires
        forall|i: int, j: int| 0 <= i < 4 && 0 <= j < 4 ==> a.at(i, j) == b.at(i, j),
    ensures
        a == b,
{
    assert forall|i: int| 0 <= i < 4 implies a.m[i] == b.m[i] by {
        assert forall|j: int| 0 <= j < 4 implies a.m[i][j] == b.m[i][j] by {
            assert(a.at(i, j) == b.at(i, j));
        }
        assert(a.m[i] =~= b.m[i]);
    }
    assert(a.m =~= b.m);
}

} // verus!
