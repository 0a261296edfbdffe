//! Integer arithmetic shared by the ledgers: basis points, fixed-point scales
//! and division that rounds towards zero.

use vstd::prelude::*;
use vstd::arithmetic::div_mod::lemma_fundamental_div_mod_converse;

verus! {

/// One hundred percent in basis points.
pub const BPS_SCALE: u128 = 10000;

/// The fixed-point scale of the interest-per-share accumulator.
pub const SHARE_SCALE: u128 = 1_000_000_000;

/// Thirty days in seconds: the length of one payment period.
pub const PAYMENT_PERIOD_SECS: u64 = 2_592_000;

/// The quotient of `n` by a positive `d`, rounded towards zero.
pub open spec fn trunc_div(n: int, d: int) -> int {
    if n >= 0 {
        n / d
    } else {
        -((-n) / d)
    }
}

/// `part` of `whole` in basis points, rounded down; zero of an empty whole.
pub open spec fn bps_of(part: int, whole: int) -> int {
    if whole > 0 && part > 0 {
        (part * 10000) / whole
    } else {
        0
    }
}

proof fn lemma_double_step(a: int, h: int, d: int, q: int, r: int)
    by (nonlinear_arith)
    requires
        a * h == q * d + r,
    ensures
        a * (2 * h) == (2 * q) * d + 2 * r,
        a * (2 * h) == (2 * q + 1) * d + (2 * r - d),
        a * (2 * h + 1) == (2 * q) * d + (2 * r + a),
        a * (2 * h + 1) == (2 * q + 1) * d + (2 * r + a - d),
        a * (2 * h + 1) == (2 * q + 2) * d + (2 * r + a - 2 * d),
{
}

proof fn lemma_quotient_bound(a: int, k: int, d: int, q: int, r: int)
    by (nonlinear_arith)
    requires
        0 <= a <= d,
        0 < d,
        0 <= k,
        0 <= r,
        a * k == q * d + r,
    ensures
        q <= k,
{
}

/// A part of a whole is at most all of it: at most 10000 basis points.
pub proof fn lemma_bps_of_bounds(part: int, whole: int)
    requires
        part <= whole,
    ensures
        0 <= bps_of(part, whole) <= 10000,
        part == whole && whole > 0 ==> bps_of(part, whole) == 10000,
{
    if whole > 0 && part > 0 {
        assert(0 <= (part * 10000) / whole <= 10000) by (nonlinear_arith)
            requires
                0 < part <= whole,
        ;
        if part == whole {
            assert((whole * 10000) / whole == 10000) by (nonlinear_arith)
                requires
                    whole > 0,
            ;
        }
    }
}

/// Quotient and remainder of `a * k` by `d`, for `a <= d`, without forming the
/// product: the multiplier is taken bit by bit.
fn mul_div_rem(a: u128, k: u128, d: u128) -> (qr: (u128, u128))
    requires
        a <= d,
        0 < d <= i128::MAX,
    ensures
        a * k == qr.0 * d + qr.1,
        qr.1 < d,
        qr.0 <= k,
    decreases k,
{
    if k == 0 {
        assert(a * 0 == 0 * d + 0) by (nonlinear_arith);
        return (0, 0);
    }
    let h: u128 = k / 2;
    let (q, r) = mul_div_rem(a, h, d);
    proof {
        lemma_double_step(a as int, h as int, d as int, q as int, r as int);
    }
    let odd: bool = k % 2 == 1;
    let ghost k2: int = if odd { 2 * h + 1 } else { 2 * h };
    assert(k2 == k);
    let mut q2: u128 = 2 * q;
    let mut r2: u128 = 2 * r;
    if odd {
        if r2 >= d {
            r2 = r2 - d;
            proof {
                lemma_quotient_bound(a as int, k as int, d as int, 2 * q + 1, r2 + a);
            }
            q2 = q2 + 1;
        }
        r2 = r2 + a;
        if r2 >= d {
            r2 = r2 - d;
            proof {
                lemma_quotient_bound(a as int, k as int, d as int, q2 + 1, r2 as int);
            }
            q2 = q2 + 1;
        }
    } else {
        if r2 >= d {
            r2 = r2 - d;
            proof {
                lemma_quotient_bound(a as int, k as int, d as int, 2 * q + 1, r2 as int);
            }
            q2 = q2 + 1;
        }
    }
    proof {
        lemma_quotient_bound(a as int, k as int, d as int, q2 as int, r2 as int);
    }
    (q2, r2)
}

/// `a * k / d` rounded down, for `a <= d`. The product itself may exceed 128
/// bits; the quotient never exceeds `k`.
pub fn mul_div_floor(a: u128, k: u128, d: u128) -> (q: u128)
    requires
        a <= d,
        0 < d <= i128::MAX,
    ensures
        q == (a * k) / (d as int),
        q <= k,
{
    let (q, r) = mul_div_rem(a, k, d);
    proof {
        lemma_fundamental_div_mod_converse(a * k, d as int, q as int, r as int);
    }
    q
}

/// `part` of `whole` in basis points, for a part that does not exceed the whole.
pub fn basis_points(part: i128, whole: i128) -> (bps: u32)
    requires
        part <= whole,
    ensures
        bps == bps_of(part as int, whole as int),
        bps <= 10000,
{
    proof {
        lemma_bps_of_bounds(part as int, whole as int);
    }
    if whole > 0 && part > 0 {
        let q: u128 = mul_div_floor(part as u128, BPS_SCALE, whole as u128);
        q as u32
    } else {
        0
    }
}

} // verus!
