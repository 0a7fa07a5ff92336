//! Three-dimensional vectors: the mathematical model and its fixed-point
//! carrier.

use vstd::math::abs;
use vstd::prelude::*;
use crate::scalar::{
    ceil_sqrt, div_toward_zero, is_ceil_sqrt, isqrt_ceil, lemma_ceil_sqrt_exists,
    lemma_div_toward_zero, lemma_one_squared, ONE,
};

verus! {

/// A vector over the integers, the model that every contract speaks of.
/// A component counts millionths of a unit.
pub struct Vector {
    pub x: int,
    pub y: int,
    pub z: int,
}

impl Vector {
    /// The vector without length.
    pub open spec fn zero() -> Vector {
        Vector { x: 0, y: 0, z: 0 }
    }

    /// The world's up direction, one unit long.
    pub open spec fn up() -> Vector {
        Vector { x: 0, y: ONE as int, z: 0 }
    }

    /// The opposite vector.
    pub open spec fn neg(self) -> Vector {
        Vector { x: -self.x, y: -self.y, z: -self.z }
    }

    /// The sum of two vectors.
    pub open spec fn plus(self, other: Vector) -> Vector {
        Vector { x: self.x + other.x, y: self.y + other.y, z: self.z + other.z }
    }

    /// The vector taken `k` times.
    pub open spec fn scaled(self, k: int) -> Vector {
        Vector { x: k * self.x, y: k * self.y, z: k * self.z }
    }

    /// The dot product. For two vectors in millionths of a unit it counts
    /// millionths of millionths.
    pub open spec fn dot(self, other: Vector) -> int {
        self.x * other.x + self.y * other.y + self.z * other.z
    }

    /// The square of the length.
    pub open spec fn norm_squared(self) -> int {
        self.dot(self)
    }

    /// The length in millionths of the step that a component counts,
    /// rounded up.
    pub open spec fn fine_length(self) -> int {
        ceil_sqrt((self.norm_squared() * (ONE * ONE)) as nat) as int
    }

    /// The vector rescaled to one unit of length, each component rounded
    /// toward zero; the zero vector stays zero.
    pub open spec fn normalized(self) -> Vector {
        let len = self.fine_length();
        if len == 0 {
            Vector::zero()
        } else {
            Vector {
                x: div_toward_zero(self.x * (ONE * ONE), len),
                y: div_toward_zero(self.y * (ONE * ONE), len),
                z: div_toward_zero(self.z * (ONE * ONE), len),
            }
        }
    }

    /// Every component can be held in an `i32`.
    pub open spec fn fits(self) -> bool {
        &&& i32::MIN <= self.x <= i32::MAX
        &&& i32::MIN <= self.y <= i32::MAX
        &&& i32::MIN <= self.z <= i32::MAX
    }

    /// The length is one unit, up to the rounding of a normalisation: the
    /// squared length falls short of a full unit by at most `8 * ONE`, the
    /// length itself by less than five millionths.
    pub open spec fn is_unit(self) -> bool {
        ONE * ONE - 8 * ONE <= self.norm_squared() <= ONE * ONE
    }
}

/// A fixed-point vector: each component counts millionths of a unit.
#[derive(Clone, Copy, Debug, PartialEq, Eq, Structural)]
pub struct Vec3 {
    pub x: i32,
    pub y: i32,
    pub z: i32,
}

impl View for Vec3 {
    type V = Vector;

    open spec fn view(&self) -> Vector {
        Vector { x: self.x as int, y: self.y as int, z: self.z as int }
    }
}

/// A number within one divisor below another has a square within twice
/// their product of the other's.
proof fn lemma_near_square(p: int, m: int, b: int)
    by (nonlinear_arith)
    requires
        0 <= p <= m,
        m - b < p,
        b > 0,
    ensures
        p * p <= m * m,
        p * p >= m * m - 2 * m * b,
{
    if m >= b {
        assert((m - b) * (m - b) <= p * p);
        assert((m - b) * (m - b) == m * m - 2 * m * b + b * b);
    } else {
        assert(m * m <= m * b);
    }
}

/// Squares of a dividend and of its quotient rounded toward zero, the
/// quotient multiplied back by the divisor.
proof fn lemma_rounded_square(a: int, b: int)
    requires
        b > 0,
    ensures
        ({
            let q = div_toward_zero(a, b);
            let m = if a >= 0 { a } else { -a };
            &&& q * q * (b * b) <= a * a
            &&& q * q * (b * b) >= a * a - 2 * m * b
        }),
{
    lemma_div_toward_zero(a, b);
    let q = div_toward_zero(a, b);
    let p = q * b;
    let m = if a >= 0 { a } else { -a };
    let pm = if p >= 0 { p } else { -p };
    assert(a >= 0 ==> p >= 0) by (nonlinear_arith)
        requires
            a >= 0 ==> q >= 0,
            b > 0,
            p == q * b,
    ;
    assert(a <= 0 ==> p <= 0) by (nonlinear_arith)
        requires
            a <= 0 ==> q <= 0,
            b > 0,
            p == q * b,
    ;
    lemma_near_square(pm, m, b);
    assert(pm * pm == p * p) by (nonlinear_arith)
        requires
            pm == p || pm == -p,
    ;
    assert(m * m == a * a) by (nonlinear_arith)
        requires
            m == a || m == -a,
    ;
    assert(p * p == q * q * (b * b)) by (nonlinear_arith)
        requires
            p == q * b,
    ;
}

/// Zero divided is zero.
proof fn lemma_zero_stays_zero(a: int, k: int, b: int)
    requires
        b > 0,
    ensures
        a == 0 ==> div_toward_zero(a * k, b) == 0,
{
    if a == 0 {
        assert(a * k == 0) by (nonlinear_arith)
            requires
                a == 0,
        ;
        lemma_div_toward_zero(0, b);
        let q = div_toward_zero(0, b);
        assert(q == 0) by (nonlinear_arith)
            requires
                q >= 0,
                q * b <= 0,
                b > 0,
        ;
    }
}

/// The square of a product is the product of the squares.
proof fn lemma_scaled_square(a: int, k: int)
    by (nonlinear_arith)
    ensures
        (a * k) * (a * k) == k * k * (a * a),
{
}

/// A square is never negative, and zero only for zero.
proof fn lemma_square_nonnegative(a: int)
    by (nonlinear_arith)
    ensures
        a * a >= 0,
        a * a == 0 ==> a == 0,
{
}

/// A number whose square does not exceed a square does not exceed its
/// root.
proof fn lemma_magnitude_below_root(a: int, len: int)
    by (nonlinear_arith)
    requires
        len >= 0,
        a * a <= len * len,
    ensures
        -len <= a <= len,
{
}

impl Vector {
    /// The squared length is never negative, and zero only for the zero
    /// vector.
    pub proof fn lemma_norm_squared(self)
        ensures
            self.norm_squared() >= 0,
            self.norm_squared() == 0 <==> self == Vector::zero(),
            self.x * self.x <= self.norm_squared(),
            self.y * self.y <= self.norm_squared(),
            self.z * self.z <= self.norm_squared(),
    {
        lemma_square_nonnegative(self.x);
        lemma_square_nonnegative(self.y);
        lemma_square_nonnegative(self.z);
    }

    /// Scaling a vector scales its squared length by the square of the
    /// factor.
    pub proof fn lemma_scaled_norm(self, k: int)
        ensures
            self.scaled(k).norm_squared() == k * k * self.norm_squared(),
    {
        lemma_scaled_square(self.x, k);
        lemma_scaled_square(self.y, k);
        lemma_scaled_square(self.z, k);
        let v = self.scaled(k);
        assert(v.x == self.x * k && v.y == self.y * k && v.z == self.z * k) by (nonlinear_arith)
            requires
                v.x == k * self.x,
                v.y == k * self.y,
                v.z == k * self.z,
        ;
        assert(k * k * self.norm_squared() == k * k * (self.x * self.x) + k * k * (self.y * self.y)
            + k * k * (self.z * self.z)) by (nonlinear_arith)
            requires
                self.norm_squared() == self.x * self.x + self.y * self.y + self.z * self.z,
        ;
    }

    /// Normalising yields the zero vector from the zero vector and a unit
    /// vector, up to rounding, from every other. It keeps a zero component
    /// zero, and no component of the result exceeds one unit.
    pub proof fn lemma_normalized(self)
        ensures
            self == Vector::zero() ==> self.normalized() == Vector::zero(),
            self != Vector::zero() ==> self.normalized().is_unit(),
            self.normalized().norm_squared() <= ONE * ONE,
            self.x == 0 ==> self.normalized().x == 0,
            self.y == 0 ==> self.normalized().y == 0,
            self.z == 0 ==> self.normalized().z == 0,
            -ONE <= self.normalized().x <= ONE,
            -ONE <= self.normalized().y <= ONE,
            -ONE <= self.normalized().z <= ONE,
    {
        let one: int = ONE as int;
        let k: int = one * one;
        let s = self.norm_squared();
        self.lemma_norm_squared();
        assert(s * k >= 0 && (s > 0 ==> s * k >= k)) by (nonlinear_arith)
            requires
                s >= 0,
                k >= 0,
        ;
        lemma_ceil_sqrt_exists((s * k) as nat);
        let len = self.fine_length();
        let n = self.normalized();
        assert(is_ceil_sqrt((s * k) as nat, len as nat));
        lemma_square_nonnegative(len - 1);
        if len == 0 {
            assert(s == 0) by (nonlinear_arith)
                requires
                    s >= 0,
                    s * k <= 0,
                    k > 0,
            ;
        } else {
            lemma_zero_stays_zero(self.x, k, len);
            lemma_zero_stays_zero(self.y, k, len);
            lemma_zero_stays_zero(self.z, k, len);
            lemma_rounded_square(self.x * k, len);
            lemma_rounded_square(self.y * k, len);
            lemma_rounded_square(self.z * k, len);
            lemma_div_toward_zero(self.x * k, len);
            lemma_div_toward_zero(self.y * k, len);
            lemma_div_toward_zero(self.z * k, len);
            let ll = len * len;
            let nn = n.norm_squared();
            assert(nn * ll == n.x * n.x * ll + n.y * n.y * ll + n.z * n.z * ll)
                by (nonlinear_arith)
                requires
                    nn == n.x * n.x + n.y * n.y + n.z * n.z,
            ;
            lemma_scaled_square(self.x, k);
            lemma_scaled_square(self.y, k);
            lemma_scaled_square(self.z, k);
            assert(k * (s * k) == k * k * (self.x * self.x) + k * k * (self.y * self.y) + k * k * (
            self.z * self.z)) by (nonlinear_arith)
                requires
                    s == self.x * self.x + self.y * self.y + self.z * self.z,
            ;
            // no longer than one unit
            assert(nn * ll <= k * ll) by (nonlinear_arith)
                requires
                    nn * ll <= k * (s * k),
                    s * k <= ll,
                    k >= 0,
            ;
            assert(nn <= k) by (nonlinear_arith)
                requires
                    nn * ll <= k * ll,
                    ll > 0,
            ;
            n.lemma_norm_squared();
            lemma_magnitude_below_root(n.x, one);
            lemma_magnitude_below_root(n.y, one);
            lemma_magnitude_below_root(n.z, one);
            // no shorter than one unit less the rounding
            if s > 0 {
                lemma_scaled_square(self.x, one);
                lemma_scaled_square(self.y, one);
                lemma_scaled_square(self.z, one);
                assert((self.x * one) * (self.x * one) <= ll && (self.y * one) * (self.y * one)
                    <= ll && (self.z * one) * (self.z * one) <= ll) by (nonlinear_arith)
                    requires
                        (self.x * one) * (self.x * one) == k * (self.x * self.x),
                        (self.y * one) * (self.y * one) == k * (self.y * self.y),
                        (self.z * one) * (self.z * one) == k * (self.z * self.z),
                        self.x * self.x <= s,
                        self.y * self.y <= s,
                        self.z * self.z <= s,
                        s * k <= ll,
                        k >= 0,
                ;
                lemma_magnitude_below_root(self.x * one, len);
                lemma_magnitude_below_root(self.y * one, len);
                lemma_magnitude_below_root(self.z * one, len);
                lemma_magnitude_below_root(one, len);
                let mx = if self.x * k >= 0 { self.x * k } else { -(self.x * k) };
                let my = if self.y * k >= 0 { self.y * k } else { -(self.y * k) };
                let mz = if self.z * k >= 0 { self.z * k } else { -(self.z * k) };
                assert(mx <= one * len && my <= one * len && mz <= one * len) by (nonlinear_arith)
                    requires
                        k == one * one,
                        one > 0,
                        -len <= self.x * one <= len,
                        -len <= self.y * one <= len,
                        -len <= self.z * one <= len,
                        mx == self.x * k || mx == -(self.x * k),
                        my == self.y * k || my == -(self.y * k),
                        mz == self.z * k || mz == -(self.z * k),
                ;
                assert(2 * mx * len + 2 * my * len + 2 * mz * len <= 6 * one * ll)
                    by (nonlinear_arith)
                    requires
                        mx <= one * len,
                        my <= one * len,
                        mz <= one * len,
                        len > 0,
                        ll == len * len,
                ;
                assert(s * k >= ll - 2 * len) by (nonlinear_arith)
                    requires
                        (len - 1) * (len - 1) < s * k,
                        ll == len * len,
                ;
                assert(k * (s * k) >= k * ll - 2 * one * ll) by (nonlinear_arith)
                    requires
                        s * k >= ll - 2 * len,
                        k == one * one,
                        ll == len * len,
                        0 < one <= len,
                ;
                assert(nn * ll >= (k - 8 * one) * ll) by (nonlinear_arith)
                    requires
                        nn * ll >= k * (s * k) - 6 * one * ll,
                        k * (s * k) >= k * ll - 2 * one * ll,
                ;
                assert(nn >= k - 8 * one) by (nonlinear_arith)
                    requires
                        nn * ll >= (k - 8 * one) * ll,
                        ll > 0,
                ;
            }
        }
    }
}

/// One cross term of a vector and its rounded rescaling: with
/// `n = (v * k) / len` rounded toward zero in each component, `n` and `v`
/// are parallel up to the rounding.
proof fn lemma_cross_term(vi: int, vj: int, ni: int, nj: int, k: int, len: int)
    requires
        len > 0,
        ni == div_toward_zero(vi * k, len),
        nj == div_toward_zero(vj * k, len),
    ensures
        abs(ni * vj - nj * vi) <= abs(vi) + abs(vj),
{
    lemma_div_toward_zero(vi * k, len);
    lemma_div_toward_zero(vj * k, len);
    let ri = vi * k - ni * len;
    let rj = vj * k - nj * len;
    let c = ni * vj - nj * vi;
    let mi = abs(vi) as int;
    let mj = abs(vj) as int;
    assert(-len < ri < len && -len < rj < len);
    assert(c * len == rj * vi - ri * vj) by (nonlinear_arith)
        requires
            ri == vi * k - ni * len,
            rj == vj * k - nj * len,
            c == ni * vj - nj * vi,
    ;
    assert(-(len * mi) <= rj * vi <= len * mi) by (nonlinear_arith)
        requires
            -len < rj < len,
            mi == vi || mi == -vi,
            mi >= 0,
    ;
    assert(-(len * mj) <= ri * vj <= len * mj) by (nonlinear_arith)
        requires
            -len < ri < len,
            mj == vj || mj == -vj,
            mj >= 0,
    ;
    assert(-(mi + mj) <= c <= mi + mj) by (nonlinear_arith)
        requires
            -(len * mi) - len * mj <= c * len <= len * mi + len * mj,
            len > 0,
    ;
}

impl Vector {
    /// The normalised vector points where the vector points. Each of its
    /// components has the sign of the vector's component or is zero, and
    /// the cross product of the two, which vanishes for parallel vectors,
    /// has no component greater than the rounding accounts for.
    pub proof fn lemma_normalized_direction(self)
        ensures
            self.x >= 0 ==> self.normalized().x >= 0,
            self.x <= 0 ==> self.normalized().x <= 0,
            self.y >= 0 ==> self.normalized().y >= 0,
            self.y <= 0 ==> self.normalized().y <= 0,
            self.z >= 0 ==> self.normalized().z >= 0,
            self.z <= 0 ==> self.normalized().z <= 0,
            abs(self.normalized().x * self.y - self.normalized().y * self.x) <= abs(self.x) + abs(
                self.y,
            ),
            abs(self.normalized().y * self.z - self.normalized().z * self.y) <= abs(self.y) + abs(
                self.z,
            ),
            abs(self.normalized().z * self.x - self.normalized().x * self.z) <= abs(self.z) + abs(
                self.x,
            ),
    {
        let k: int = ONE * ONE;
        let len = self.fine_length();
        let n = self.normalized();
        if len > 0 {
            lemma_sign_kept(self.x, k, len);
            lemma_sign_kept(self.y, k, len);
            lemma_sign_kept(self.z, k, len);
            lemma_cross_term(self.x, self.y, n.x, n.y, k, len);
            lemma_cross_term(self.y, self.z, n.y, n.z, k, len);
            lemma_cross_term(self.z, self.x, n.z, n.x, k, len);
        }
    }
}

/// Rounding toward zero keeps the sign of the dividend.
proof fn lemma_sign_kept(a: int, k: int, b: int)
    requires
        k > 0,
        b > 0,
    ensures
        a >= 0 ==> div_toward_zero(a * k, b) >= 0,
        a <= 0 ==> div_toward_zero(a * k, b) <= 0,
{
    lemma_div_toward_zero(a * k, b);
    assert(a >= 0 ==> a * k >= 0) by (nonlinear_arith)
        requires
            k > 0,
    ;
    assert(a <= 0 ==> a * k <= 0) by (nonlinear_arith)
        requires
            k > 0,
    ;
}

/// The product of two bounded numbers is bounded by the square of the
/// bound.
proof fn lemma_product_bound(a: int, b: int, m: int)
    by (nonlinear_arith)
    requires
        -m <= a <= m,
        -m <= b <= m,
    ensures
        -(m * m) <= a * b <= m * m,
{
}

/// The product of two components, which always fits.
fn product(a: i32, b: i32) -> (r: i64)
    ensures
        r == a * b,
        -0x4000_0000_0000_0000 <= r <= 0x4000_0000_0000_0000,
{
    proof {
        lemma_product_bound(a as int, b as int, 0x8000_0000);
    }
    (a as i64) * (b as i64)
}

impl Vec3 {
    /// The vector with the given components.
    pub fn new(x: i32, y: i32, z: i32) -> (v: Vec3)
        ensures
            v.x == x,
            v.y == y,
            v.z == z,
    {
        Vec3 { x, y, z }
    }

    /// The vector without length.
    pub fn zero() -> (v: Vec3)
        ensures
            v@ == Vector::zero(),
    {
        Vec3 { x: 0, y: 0, z: 0 }
    }

    /// The world's up direction, one unit long.
    pub fn up() -> (v: Vec3)
        ensures
            v@ == Vector::up(),
    {
        Vec3 { x: 0, y: ONE, z: 0 }
    }

    /// The dot product, in millionths of millionths.
    pub fn dot(&self, other: &Vec3) -> (d: i128)
        ensures
            d == self@.dot(other@),
    {
        let xx: i64 = product(self.x, other.x);
        let yy: i64 = product(self.y, other.y);
        let zz: i64 = product(self.z, other.z);
        (xx as i128) + (yy as i128) + (zz as i128)
    }

    /// The square of the length, in millionths of millionths.
    pub fn norm_squared(&self) -> (n: u64)
        ensures
            n == self@.norm_squared(),
    {
        let xx: i64 = product(self.x, self.x);
        let yy: i64 = product(self.y, self.y);
        let zz: i64 = product(self.z, self.z);
        proof {
            assert(self.x * self.x >= 0) by (nonlinear_arith);
            assert(self.y * self.y >= 0) by (nonlinear_arith);
            assert(self.z * self.z >= 0) by (nonlinear_arith);
        }
        (xx as u64) + (yy as u64) + (zz as u64)
    }

    /// The vector rescaled to one unit of length, or zero for the zero
    /// vector.
    pub fn normalize_or_zero(&self) -> (v: Vec3)
        ensures
            v@ == self@.normalized(),
    {
        let scale: u128 = (ONE as u128) * (ONE as u128);
        proof {
            lemma_one_squared();
        }
        let len: u128 = isqrt_ceil((self.norm_squared() as u128) * scale);
        if len == 0 {
            return Vec3::zero();
        }
        proof {
            self@.lemma_normalized();
        }
        let x: i128 = (self.x as i128) * (scale as i128) / (len as i128);
        let y: i128 = (self.y as i128) * (scale as i128) / (len as i128);
        let z: i128 = (self.z as i128) * (scale as i128) / (len as i128);
        Vec3 { x: x as i32, y: y as i32, z: z as i32 }
    }

    /// The opposite vector, where it can be held.
    pub fn neg(&self) -> (v: Vec3)
        requires
            self@.neg().fits(),
        ensures
            v@ == self@.neg(),
    {
        Vec3 { x: -self.x, y: -self.y, z: -self.z }
    }

    /// The sum of two vectors, where it can be held.
    pub fn plus(&self, other: &Vec3) -> (v: Vec3)
        requires
            self@.plus(other@).fits(),
        ensures
            v@ == self@.plus(other@),
    {
        Vec3 { x: self.x + other.x, y: self.y + other.y, z: self.z + other.z }
    }

    /// The vector taken `k` times, where the result can be held.
    pub fn scaled(&self, k: i32) -> (v: Vec3)
        requires
            self@.scaled(k as int).fits(),
        ensures
            v@ == self@.scaled(k as int),
    {
        let x: i64 = product(k, self.x);
        let y: i64 = product(k, self.y);
        let z: i64 = product(k, self.z);
        Vec3 { x: x as i32, y: y as i32, z: z as i32 }
    }
}

} // verus!
