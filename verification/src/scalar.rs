//! The fixed-point scale and the integer helpers that normalisation needs.

use vstd::prelude::*;

verus! {

/// One whole unit. Lengths, speeds and direction components are integer
/// counts of millionths of a unit.
pub const ONE: i32 = 1_000_000;

/// The square of one unit, written out.
pub proof fn lemma_one_squared()
    ensures
        ONE * ONE == 1_000_000_000_000,
{
    assert(ONE * ONE == 1_000_000_000_000) by (nonlinear_arith)
        requires
            ONE == 1_000_000,
    ;
}

/// `r` is the least natural number whose square is at least `n`.
pub open spec fn is_ceil_sqrt(n: nat, r: nat) -> bool {
    &&& r * r >= n
    &&& r > 0 ==> (r - 1) * (r - 1) < n
}

/// The square root of `n`, rounded up.
pub open spec fn ceil_sqrt(n: nat) -> nat {
    choose|r: nat| is_ceil_sqrt(n, r)
}

/// `a / b` rounded toward zero, for a positive divisor.
pub open spec fn div_toward_zero(a: int, b: int) -> int {
    if a >= 0 {
        a / b
    } else {
        -((-a) / b)
    }
}

/// Squaring keeps the order of natural numbers.
pub proof fn lemma_square_monotone(a: int, b: int)
    by (nonlinear_arith)
    requires
        0 <= a <= b,
    ensures
        a * a <= b * b,
{
}

/// At most one number is the rounded-up square root of `n`, so whichever one
/// is found is `ceil_sqrt(n)`.
pub proof fn lemma_ceil_sqrt_unique(n: nat, r: nat)
    requires
        is_ceil_sqrt(n, r),
    ensures
        ceil_sqrt(n) == r,
{
    let c = ceil_sqrt(n);
    assert(is_ceil_sqrt(n, c));
    if c < r {
        lemma_square_monotone(c as int, r - 1);
    } else if r < c {
        lemma_square_monotone(r as int, c - 1);
    }
}

/// Every natural number has a rounded-up square root.
pub proof fn lemma_ceil_sqrt_exists(n: nat)
    ensures
        is_ceil_sqrt(n, ceil_sqrt(n)),
    decreases n,
{
    if n == 0 {
        assert(is_ceil_sqrt(0, 0));
    } else {
        let m = (n - 1) as nat;
        lemma_ceil_sqrt_exists(m);
        let r = ceil_sqrt(m);
        if r * r >= n {
            assert(is_ceil_sqrt(n, r));
        } else {
            assert((r + 1) * (r + 1) >= n) by (nonlinear_arith)
                requires
                    r * r == n - 1,
            ;
            assert(is_ceil_sqrt(n, r + 1));
        }
    }
}

/// What rounding toward zero leaves of a quotient: the product of quotient
/// and divisor lies between the dividend and zero, less than one divisor
/// away from the dividend.
pub proof fn lemma_div_toward_zero(a: int, b: int)
    requires
        b > 0,
    ensures
        a >= 0 ==> 0 <= div_toward_zero(a, b) && a - b < div_toward_zero(a, b) * b <= a,
        a <= 0 ==> div_toward_zero(a, b) <= 0 && a <= div_toward_zero(a, b) * b < a + b,
{
    let m = if a >= 0 { a } else { -a };
    vstd::arithmetic::div_mod::lemma_fundamental_div_mod(m, b);
    vstd::arithmetic::div_mod::lemma_mod_bound(m, b);
    vstd::arithmetic::div_mod::lemma_div_pos_is_pos(m, b);
    vstd::arithmetic::mul::lemma_mul_is_commutative(b, m / b);
    if a < 0 {
        assert((-(m / b)) * b == -((m / b) * b)) by (nonlinear_arith);
    }
}

/// The integer square root of `n`, rounded up.
pub fn isqrt_ceil(n: u128) -> (r: u128)
    ensures
        r == ceil_sqrt(n as nat),
        r <= 0x1_0000_0000_0000_0000,
{
    let mut lo: u128 = 0;
    let mut hi: u128 = 0x1_0000_0000_0000_0000;
    while lo < hi
        invariant
            lo <= hi <= 0x1_0000_0000_0000_0000,
            hi * hi >= n,
            lo > 0 ==> (lo - 1) * (lo - 1) < n,
        decreases hi - lo,
    {
        let mid: u128 = lo + (hi - lo) / 2;
        proof {
            lemma_square_monotone(mid as int, 0xffff_ffff_ffff_ffff);
        }
        let square: u128 = mid * mid;
        if square >= n {
            hi = mid;
        } else {
            lo = mid + 1;
        }
    }
    proof {
        lemma_ceil_sqrt_unique(n as nat, lo as nat);
    }
    lo
}

} // verus!
