//! Decimal fixed-point arithmetic.
//!
//! Every fractional quantity of the compositor, be it a blend weight, a
//! threshold or a colour channel, is an integer count of millionths. The
//! operations here are exact on integers: where a quotient is not whole it is
//! rounded toward negative infinity.

use vstd::arithmetic::div_mod::{
    lemma_div_is_ordered, lemma_div_multiples_vanish, lemma_fundamental_div_mod,
    lemma_fundamental_div_mod_converse,
};
use vstd::prelude::*;

verus! {

/// A real number held as an integer count of millionths.
pub type Fixed = i32;

/// The fixed-point representation of one.
pub const SCALE: i32 = 1_000_000;

/// `r` is the integer square root of `n`: the largest integer whose square
/// does not exceed `n`.
pub open spec fn is_sqrt_floor(n: nat, r: nat) -> bool {
    r * r <= n && n < (r + 1) * (r + 1)
}

/// The integer square root of `n`.
pub open spec fn sqrt_floor(n: nat) -> nat {
    choose|r: nat| is_sqrt_floor(n, r)
}

/// The square root of the fixed-point number `q`, as a fixed-point number.
pub open spec fn fixed_sqrt_spec(q: int) -> int {
    if q <= 0 {
        0
    } else {
        sqrt_floor((q * SCALE) as nat) as int
    }
}

/// Squaring is monotone on the naturals.
pub proof fn lemma_square_monotone(a: nat, b: nat)
    requires
        a <= b,
    ensures
        a * a <= b * b,
{
    assert(a * a <= b * b) by (nonlinear_arith)
        requires
            a <= b,
    ;
}

/// Every natural number has an integer square root.
pub proof fn lemma_sqrt_floor_exists(n: nat)
    ensures
        is_sqrt_floor(n, sqrt_floor(n)),
    decreases n,
{
    if n == 0 {
        assert(is_sqrt_floor(0, 0)) by (nonlinear_arith);
    } else {
        let m = (n - 1) as nat;
        lemma_sqrt_floor_exists(m);
        let r = sqrt_floor(m);
        if (r + 1) * (r + 1) <= n {
            assert((r + 1) * (r + 1) < (r + 2) * (r + 2)) by (nonlinear_arith);
            assert(is_sqrt_floor(n, r + 1));
        } else {
            assert(is_sqrt_floor(n, r));
        }
    }
}

/// The integer square root is unique.
pub proof fn lemma_sqrt_floor_unique(n: nat, r: nat)
    requires
        is_sqrt_floor(n, r),
    ensures
        sqrt_floor(n) == r,
{
    lemma_sqrt_floor_exists(n);
    let s = sqrt_floor(n);
    if s < r {
        lemma_square_monotone(s + 1, r);
    } else if r < s {
        lemma_square_monotone(r + 1, s);
    }
}

/// The integer square root never decreases as its argument grows.
pub proof fn lemma_sqrt_floor_monotone(m: nat, n: nat)
    requires
        m <= n,
    ensures
        sqrt_floor(m) <= sqrt_floor(n),
{
    lemma_sqrt_floor_exists(m);
    lemma_sqrt_floor_exists(n);
    let a = sqrt_floor(m);
    let b = sqrt_floor(n);
    if b < a {
        lemma_square_monotone(b + 1, a);
    }
}

/// The square root of a fixed-point number is at least `root` where the
/// number is at least the square of `root`.
pub proof fn lemma_fixed_sqrt_at_least(q: int, root: int)
    requires
        root > 0,
        q * SCALE >= root * root,
    ensures
        fixed_sqrt_spec(q) >= root,
{
    assert(q > 0) by (nonlinear_arith)
        requires
            root > 0,
            q * SCALE >= root * root,
    ;
    assert(is_sqrt_floor((root * root) as nat, root as nat)) by (nonlinear_arith)
        requires
            root > 0,
    ;
    lemma_sqrt_floor_unique((root * root) as nat, root as nat);
    lemma_sqrt_floor_monotone((root * root) as nat, (q * SCALE) as nat);
}

/// The square root of one is one.
pub proof fn lemma_fixed_sqrt_of_one()
    ensures
        fixed_sqrt_spec(SCALE as int) == SCALE,
{
    let s = SCALE as nat;
    assert(is_sqrt_floor(s * s, s)) by (nonlinear_arith)
        requires
            s == 1_000_000,
    ;
    lemma_sqrt_floor_unique(s * s, s);
}

/// A product is bounded by the product of the bounds of its factors.
pub proof fn lemma_product_bound(a: int, b: int, la: int, lb: int)
    requires
        -la <= a <= la,
        -lb <= b <= lb,
    ensures
        -(la * lb) <= a * b <= la * lb,
{
    assert(-(la * lb) <= a * b <= la * lb) by (nonlinear_arith)
        requires
            -la <= a <= la,
            -lb <= b <= lb,
    ;
}

/// A quotient by a positive divisor is bounded by `bound` where the dividend
/// is bounded by `bound` times the divisor.
pub proof fn lemma_quotient_bound(x: int, d: int, bound: int)
    requires
        d > 0,
        -(bound * d) <= x <= bound * d,
    ensures
        -bound <= x / d <= bound,
{
    lemma_div_is_ordered(x, bound * d, d);
    lemma_div_is_ordered(-(bound * d), x, d);
    lemma_div_multiples_vanish(bound, d);
    lemma_div_multiples_vanish(-bound, d);
    assert((-bound) * d == -(bound * d)) by (nonlinear_arith);
    assert(bound * d == d * bound) by (nonlinear_arith);
    assert((-bound) * d == d * (-bound)) by (nonlinear_arith);
}

/// Quotient of `a` by a positive `b`, rounded toward negative infinity.
pub fn div_floor(a: i128, b: i128) -> (q: i128)
    requires
        b > 0,
        a > i128::MIN,
    ensures
        q == (a as int) / (b as int),
{
    if a >= 0 {
        a / b
    } else {
        let n: i128 = -a;
        let whole: i128 = n / b;
        let rest: i128 = n % b;
        proof {
            let bi = b as int;
            lemma_fundamental_div_mod(n as int, bi);
            if rest == 0 {
                assert(a == (-whole) * bi + 0) by (nonlinear_arith)
                    requires
                        -a == bi * whole + 0,
                ;
                lemma_fundamental_div_mod_converse(a as int, bi, -whole as int, 0);
            } else {
                assert(a == (-whole - 1) * bi + (bi - rest)) by (nonlinear_arith)
                    requires
                        -a == bi * whole + rest,
                ;
                lemma_fundamental_div_mod_converse(a as int, bi, -whole - 1, bi - rest);
            }
        }
        if rest == 0 {
            -whole
        } else {
            -whole - 1
        }
    }
}

/// The integer square root of `n`, found by bisection.
pub fn isqrt(n: u64) -> (r: u64)
    ensures
        r == sqrt_floor(n as nat),
{
    let mut lo: u64 = 0;
    let mut hi: u64 = 0x1_0000_0000;
    proof {
        assert(0x1_0000_0000int * 0x1_0000_0000int > u64::MAX) by (nonlinear_arith);
    }
    while hi - lo > 1
        invariant
            lo < hi <= 0x1_0000_0000,
            lo * lo <= n,
            n < hi * hi,
        decreases hi - lo,
    {
        let mid: u64 = lo + (hi - lo) / 2;
        proof {
            lemma_square_monotone(mid as nat, 0xffff_ffff);
            assert(0xffff_ffffnat * 0xffff_ffffnat <= u64::MAX) by (nonlinear_arith);
        }
        if mid * mid <= n {
            lo = mid;
        } else {
            hi = mid;
        }
    }
    proof {
        lemma_sqrt_floor_unique(n as nat, lo as nat);
    }
    lo
}

/// The square root of a fixed-point number, which is zero for an argument
/// that is not positive.
pub fn fixed_sqrt(q: Fixed) -> (r: i64)
    ensures
        r == fixed_sqrt_spec(q as int),
        0 <= r <= 50_000_000,
        q > 0 ==> r >= 1000,
{
    if q <= 0 {
        0
    } else {
        let scaled: u64 = (q as u64) * 1_000_000;
        let r = isqrt(scaled);
        proof {
            assert(50_000_001nat * 50_000_001nat > 0x7fff_ffff * 1_000_000) by (nonlinear_arith);
            assert(1000nat * 1000nat <= 1_000_000) by (nonlinear_arith);
            lemma_sqrt_floor_exists(scaled as nat);
            if r > 50_000_000 {
                lemma_square_monotone(50_000_001, r as nat);
            }
            if r < 1000 {
                lemma_square_monotone((r + 1) as nat, 1000);
            }
        }
        r as i64
    }
}

} // verus!
