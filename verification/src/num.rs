//! Exact integer arithmetic helpers shared by the kinematics: division
//! truncated toward zero (the rounding used by every end-of-turn
//! normalization step) and the floor of an integer square root.

use vstd::prelude::*;

verus! {

/// Division truncated toward zero, for a positive divisor.
pub open spec fn tdiv(n: int, d: int) -> int
    recommends
        d > 0,
{
    if n >= 0 {
        n / d
    } else {
        -((-n) / d)
    }
}

/// The floor of the square root of `n`.
pub open spec fn sqrt_floor(n: nat) -> nat
    decreases n,
{
    if n == 0 {
        0
    } else {
        let r = sqrt_floor((n - 1) as nat);
        if (r + 1) * (r + 1) <= n {
            r + 1
        } else {
            r
        }
    }
}

pub proof fn lemma_sqrt_floor_bounds(n: nat)
    ensures
        sqrt_floor(n) * sqrt_floor(n) <= n,
        n < (sqrt_floor(n) + 1) * (sqrt_floor(n) + 1),
    decreases n,
{
    let s = sqrt_floor(n);
    if n == 0 {
        assert(s == 0);
        assert(n < (s + 1) * (s + 1)) by (nonlinear_arith)
            requires
                s == 0,
                n == 0,
        ;
    } else {
        lemma_sqrt_floor_bounds((n - 1) as nat);
        let r = sqrt_floor((n - 1) as nat);
        if (r + 1) * (r + 1) <= n {
            assert(s == r + 1);
            assert(s * s <= n && n < (s + 1) * (s + 1)) by (nonlinear_arith)
                requires
                    s == r + 1,
                    (r + 1) * (r + 1) <= n,
                    n - 1 < (r + 1) * (r + 1),
            ;
        } else {
            assert(s == r);
            assert(s * s <= n && n < (s + 1) * (s + 1)) by (nonlinear_arith)
                requires
                    s == r,
                    r * r <= n - 1,
                    !((r + 1) * (r + 1) <= n),
            ;
        }
    }
}

pub proof fn lemma_sqrt_floor_unique(n: nat, r: nat)
    requires
        r * r <= n,
        n < (r + 1) * (r + 1),
    ensures
        r == sqrt_floor(n),
{
    lemma_sqrt_floor_bounds(n);
    let s = sqrt_floor(n);
    if r < s {
        assert((r + 1) * (r + 1) <= s * s) by (nonlinear_arith)
            requires
                r + 1 <= s,
        ;
    }
    if s < r {
        assert((s + 1) * (s + 1) <= r * r) by (nonlinear_arith)
            requires
                s + 1 <= r,
        ;
    }
}

/// Floor square root, computed by binary search over `[0, 2^64]`.
pub fn isqrt(n: u128) -> (r: u128)
    ensures
        r == sqrt_floor(n as nat),
{
    let mut lo: u128 = 0;
    let mut hi: u128 = 1u128 << 64;
    proof {
        assert((1u128 << 64) as nat == 0x10000000000000000nat) by (bit_vector);
        assert(0x10000000000000000nat * 0x10000000000000000nat > u128::MAX as nat) by (nonlinear_arith);
    }
    while lo + 1 < hi
        invariant
            lo < hi,
            lo as nat * lo as nat <= n as nat,
            hi as nat * hi as nat > n as nat,
            hi <= 0x10000000000000000u128,
        decreases hi - lo,
    {
        let mid = lo + (hi - lo) / 2;
        proof {
            assert(mid < hi && mid > lo);
            assert(mid as nat * mid as nat <= u128::MAX as nat) by (nonlinear_arith)
                requires
                    mid < 0x10000000000000000u128,
            ;
        }
        if mid * mid <= n {
            lo = mid;
        } else {
            hi = mid;
        }
    }
    proof {
        lemma_sqrt_floor_unique(n as nat, lo as nat);
    }
    lo
}

/// Truncation toward zero never grows a magnitude bound: if `|n| <= m * d`
/// then `|tdiv(n, d)| <= m`.
pub proof fn lemma_tdiv_bound(n: int, d: int, m: int)
    requires
        d > 0,
        m >= 0,
        -(m * d) <= n <= m * d,
    ensures
        -m <= tdiv(n, d) <= m,
{
    if n >= 0 {
        vstd::arithmetic::div_mod::lemma_fundamental_div_mod(n, d);
        assert(0 <= n / d <= m) by (nonlinear_arith)
            requires
                n == d * (n / d) + n % d,
                0 <= n % d < d,
                0 <= n <= m * d,
                d > 0,
        ;
    } else {
        vstd::arithmetic::div_mod::lemma_fundamental_div_mod(-n, d);
        assert(0 <= (-n) / d <= m) by (nonlinear_arith)
            requires
                -n == d * ((-n) / d) + (-n) % d,
                0 <= (-n) % d < d,
                0 <= -n <= m * d,
                d > 0,
        ;
    }
}

/// A common positive factor of the dividend and the divisor cancels.
pub proof fn lemma_tdiv_scale(n: int, d: int, c: int)
    requires
        d > 0,
        c > 0,
    ensures
        tdiv(n * c, d * c) == tdiv(n, d),
{
    if n >= 0 {
        assert(n * c >= 0) by (nonlinear_arith)
            requires
                n >= 0,
                c > 0,
        ;
        lemma_div_cancel_factor(n, d, c);
    } else {
        assert(n * c < 0) by (nonlinear_arith)
            requires
                n < 0,
                c > 0,
        ;
        assert(-(n * c) == (-n) * c) by (nonlinear_arith);
        lemma_div_cancel_factor(-n, d, c);
    }
}

proof fn lemma_div_cancel_factor(n: int, d: int, c: int)
    requires
        n >= 0,
        d > 0,
        c > 0,
    ensures
        (n * c) / (d * c) == n / d,
{
    vstd::arithmetic::div_mod::lemma_fundamental_div_mod(n, d);
    let q = n / d;
    let r = n % d;
    assert(n * c == (d * c) * q + r * c && 0 <= r * c < d * c) by (nonlinear_arith)
        requires
            n == d * q + r,
            0 <= r < d,
            c > 0,
    ;
    vstd::arithmetic::div_mod::lemma_fundamental_div_mod(n * c, d * c);
    let q2 = (n * c) / (d * c);
    let r2 = (n * c) % (d * c);
    assert(q2 == q) by (nonlinear_arith)
        requires
            n * c == (d * c) * q + r * c,
            0 <= r * c < d * c,
            n * c == (d * c) * q2 + r2,
            0 <= r2 < d * c,
            d * c > 0,
    ;
}

/// Division of `n` by a positive `d`, truncated toward zero.
pub fn div_trunc(n: i128, d: u128) -> (q: i128)
    requires
        0 < d,
        i128::MIN < n,
    ensures
        q == tdiv(n as int, d as int),
{
    if n >= 0 {
        let q = (n as u128) / d;
        proof {
            assert(q <= n as u128) by (nonlinear_arith)
                requires
                    d >= 1,
                    q == (n as u128) / d,
            ;
        }
        q as i128
    } else {
        let m = (-n) as u128;
        let q = m / d;
        proof {
            assert(q <= m) by (nonlinear_arith)
                requires
                    d >= 1,
                    q == m / d,
            ;
        }
        -(q as i128)
    }
}

} // verus!
