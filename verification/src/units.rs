//! Fixed-point units and the integer square root that distances rest on.

use vstd::prelude::*;

verus! {

/// Length sub-units in one world unit.
pub const UNIT: i64 = 1_000;

/// Speed sub-units in one world unit per tick.
pub const SPEED_UNIT: i64 = 100_000;

/// Speed sub-units that move a body by one length sub-unit in one tick.
pub const SPEED_PER_LENGTH: u64 = 100;

/// The largest magnitude of a coordinate. Positions saturate here.
pub const WORLD_LIMIT: i64 = 1_000_000_000_000_000;

/// Half the width of the play area: 760 world units to each side of the
/// centre line.
pub const AREA_WIDTH: i64 = 760_000;

/// The largest `r` with `r * r <= n`.
pub open spec fn floor_sqrt(n: nat) -> nat
    decreases n,
{
    if n == 0 {
        0
    } else {
        let r = floor_sqrt((n - 1) as nat);
        if (r + 1) * (r + 1) <= n {
            r + 1
        } else {
            r
        }
    }
}

/// `floor_sqrt(n)` is the one number whose square is at most `n` while the
/// square of its successor is not.
pub proof fn lemma_floor_sqrt_bounds(n: nat)
    ensures
        floor_sqrt(n) * floor_sqrt(n) <= n,
        n < (floor_sqrt(n) + 1) * (floor_sqrt(n) + 1),
    decreases n,
{
    let s = floor_sqrt(n);
    if n > 0 {
        let r = floor_sqrt((n - 1) as nat);
        lemma_floor_sqrt_bounds((n - 1) as nat);
        if (r + 1) * (r + 1) <= n {
            assert(s == r + 1);
            assert(n < (r + 2) * (r + 2)) by (nonlinear_arith)
                requires
                    n - 1 < (r + 1) * (r + 1),
            ;
        } else {
            assert(s == r);
        }
    } else {
        assert(s == 0);
        assert(0 * 0 == 0 && 0 < (0 + 1) * (0 + 1)) by (nonlinear_arith);
    }
    assert(s * s <= n);
    assert(n < (s + 1) * (s + 1));
}

/// Any `r` that brackets `n` between its square and its successor's square is
/// `floor_sqrt(n)`.
pub proof fn lemma_floor_sqrt_unique(n: nat, r: nat)
    requires
        r * r <= n,
        n < (r + 1) * (r + 1),
    ensures
        r == floor_sqrt(n),
{
    let s = floor_sqrt(n);
    lemma_floor_sqrt_bounds(n);
    assert(r == s) by (nonlinear_arith)
        requires
            r * r <= n,
            n < (r + 1) * (r + 1),
            s * s <= n,
            n < (s + 1) * (s + 1),
    ;
}

/// The integer square root of `n`, rounded down.
pub fn isqrt(n: u128) -> (r: u64)
    ensures
        r == floor_sqrt(n as nat),
{
    let mut lo: u128 = 0;
    let mut hi: u128 = 0x1_0000_0000_0000_0000;
    assert(hi * hi > n) by (nonlinear_arith)
        requires
            hi == 0x1_0000_0000_0000_0000,
            n <= 0xFFFF_FFFF_FFFF_FFFF_FFFF_FFFF_FFFF_FFFF,
    ;
    while hi - lo > 1
        invariant
            lo < hi <= 0x1_0000_0000_0000_0000,
            lo * lo <= n,
            n < hi * hi,
        decreases hi - lo,
    {
        let mid: u128 = lo + (hi - lo) / 2;
        assert(mid * mid <= 0xFFFF_FFFF_FFFF_FFFF_FFFF_FFFF_FFFF_FFFF) by (nonlinear_arith)
            requires
                mid < 0x1_0000_0000_0000_0000,
        ;
        if mid * mid <= n {
            lo = mid;
        } else {
            hi = mid;
        }
    }
    proof {
        assert(hi == lo + 1);
        lemma_floor_sqrt_unique(n as nat, lo as nat);
    }
    lo as u64
}

/// Whether `a * b <= c * d`, found without leaving 128 bits: each product
/// is taken in two halves of 128 bits.
pub fn product_le(a: u128, b: u128, c: u128, d: u128) -> (le: bool)
    ensures
        le == (a * b <= c * d),
{
    let left: (u128, u128) = mul_wide(a, b);
    let right: (u128, u128) = mul_wide(c, d);
    left.0 < right.0 || (left.0 == right.0 && left.1 <= right.1)
}

/// The product of `a` and `b` in two halves: `a * b == high * 2^128 + low`.
pub fn mul_wide(a: u128, b: u128) -> (halves: (u128, u128))
    ensures
        a * b == halves.0 * 0x1_0000_0000_0000_0000_0000_0000_0000_0000 + halves.1,
{
    let m: u128 = 0x1_0000_0000_0000_0000;
    let al: u128 = a % m;
    let ah: u128 = a / m;
    let bl: u128 = b % m;
    let bh: u128 = b / m;
    proof {
        lemma_product_below(al as int, bl as int);
        lemma_product_below(al as int, bh as int);
        lemma_product_below(ah as int, bl as int);
        lemma_product_below(ah as int, bh as int);
    }
    let ll: u128 = al * bl;
    let lh: u128 = al * bh;
    let hl: u128 = ah * bl;
    let hh: u128 = ah * bh;
    let cross: u128 = ll / m + lh % m + hl % m;
    let low: u128 = (cross % m) * m + ll % m;
    let high: u128 = hh + lh / m + hl / m + cross / m;
    proof {
        let big: int = 0x1_0000_0000_0000_0000;
        assert(a * b == (ah * bh) * (big * big) + (al * bh + ah * bl) * big + al * bl)
            by (nonlinear_arith)
            requires
                a == ah * big + al,
                b == bh * big + bl,
        ;
        assert(big * big == 0x1_0000_0000_0000_0000_0000_0000_0000_0000) by (nonlinear_arith)
            requires
                big == 0x1_0000_0000_0000_0000,
        ;
    }
    (high, low)
}

/// The product of two numbers below `2^64` is at most `(2^64 - 1)^2`.
proof fn lemma_product_below(x: int, y: int)
    requires
        0 <= x < 0x1_0000_0000_0000_0000,
        0 <= y < 0x1_0000_0000_0000_0000,
    ensures
        0 <= x * y <= 0xFFFF_FFFF_FFFF_FFFE_0000_0000_0000_0001,
{
    assert(0 <= x * y <= 0xFFFF_FFFF_FFFF_FFFF * 0xFFFF_FFFF_FFFF_FFFF) by (nonlinear_arith)
        requires
            0 <= x <= 0xFFFF_FFFF_FFFF_FFFF,
            0 <= y <= 0xFFFF_FFFF_FFFF_FFFF,
    ;
    assert(0xFFFF_FFFF_FFFF_FFFFint * 0xFFFF_FFFF_FFFF_FFFF == 0xFFFF_FFFF_FFFF_FFFE_0000_0000_0000_0001)
        by (nonlinear_arith);
}

} // verus!
