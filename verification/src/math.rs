//! Integer arithmetic helpers: truncating division, integer square root,
//! and the bound lemmas the physics stages rely on.
use vstd::prelude::*;
use vstd::arithmetic::div_mod::{lemma_div_is_ordered, lemma_div_multiples_vanish};

verus! {

/// Truncating (round-toward-zero) division, the semantics of the
/// executable sign-split divisions below.
pub open spec fn div_q(a: int, b: int) -> int
    recommends
        b > 0,
{
    if a >= 0 {
        a / b
    } else {
        -((-a) / b)
    }
}

/// The square of an integer.
pub open spec fn sq(a: int) -> int {
    a * a
}

/// Floor of the square root of a non-negative integer.
pub open spec fn sqrt_floor(n: int) -> int
    decreases n,
{
    if n <= 0 {
        0
    } else {
        let r = sqrt_floor(n - 1);
        if (r + 1) * (r + 1) <= n {
            r + 1
        } else {
            r
        }
    }
}

/// `sqrt_floor(n)` is the unique `r >= 0` with `r^2 <= n < (r+1)^2`.
pub proof fn lemma_sqrt_floor_bounds(n: int)
    requires
        n >= 0,
    ensures
        sqrt_floor(n) >= 0,
        sq(sqrt_floor(n)) <= n,
        n < sq(sqrt_floor(n) + 1),
    decreases n,
{
    if n > 0 {
        lemma_sqrt_floor_bounds(n - 1);
        let r = sqrt_floor(n - 1);
        if (r + 1) * (r + 1) <= n {
            assert(n - 1 < (r + 1) * (r + 1));
            assert(sq(r + 2) > n) by (nonlinear_arith)
                requires
                    r >= 0,
                    n <= sq(r + 1),
            ;
        }
    }
}

/// Any `r` in the square-root bracket of `n` equals `sqrt_floor(n)`.
pub proof fn lemma_sqrt_floor_unique(n: int, r: int)
    requires
        n >= 0,
        r >= 0,
        sq(r) <= n,
        n < sq(r + 1),
    ensures
        r == sqrt_floor(n),
{
    lemma_sqrt_floor_bounds(n);
    let s = sqrt_floor(n);
    if r < s {
        assert(sq(r + 1) <= sq(s)) by (nonlinear_arith)
            requires
                0 <= r,
                r + 1 <= s,
        ;
    }
    if s < r {
        assert(sq(s + 1) <= sq(r)) by (nonlinear_arith)
            requires
                0 <= s,
                s + 1 <= r,
        ;
    }
}

/// `|a| <= c` gives `a * a <= c * c`.
pub proof fn lemma_square_bound(a: int, c: int)
    requires
        -c <= a <= c,
        0 <= c,
    ensures
        0 <= a * a <= c * c,
{
    assert(0 <= a * a <= c * c) by (nonlinear_arith)
        requires
            -c <= a <= c,
            0 <= c,
    ;
}

/// `|a| <= ca` and `|b| <= cb` give `|a * b| <= ca * cb`.
pub proof fn lemma_mul_bound(a: int, b: int, ca: int, cb: int)
    requires
        -ca <= a <= ca,
        -cb <= b <= cb,
        0 <= ca,
        0 <= cb,
    ensures
        -(ca * cb) <= a * b <= ca * cb,
{
    assert(-(ca * cb) <= a * b <= ca * cb) by (nonlinear_arith)
        requires
            -ca <= a <= ca,
            -cb <= b <= cb,
            0 <= ca,
            0 <= cb,
    ;
}

/// Truncating division keeps the numerator's sign and never rounds away
/// from zero: `|num| <= c * den` bounds the quotient by `c`.
pub proof fn lemma_div_q_bound(num: int, den: int, c: int)
    requires
        den >= 1,
        0 <= c,
        -(c * den) <= num <= c * den,
    ensures
        -c <= div_q(num, den) <= c,
{
    lemma_div_multiples_vanish(c, den);
    assert(den * c == c * den) by (nonlinear_arith);
    if num >= 0 {
        lemma_div_is_ordered(num, c * den, den);
        assert(num / den <= c);
        assert(num / den >= 0) by (nonlinear_arith)
            requires
                num >= 0,
                den >= 1,
        ;
    } else {
        lemma_div_is_ordered(-num, c * den, den);
        assert((-num) / den <= c);
        assert((-num) / den >= 0) by (nonlinear_arith)
            requires
                -num >= 0,
                den >= 1,
        ;
    }
}

/// Truncating division is odd in its numerator.
pub proof fn lemma_div_q_neg(num: int, den: int)
    requires
        den >= 1,
    ensures
        div_q(-num, den) == -div_q(num, den),
{
}

/// The quotient's sign follows the numerator's sign.
pub proof fn lemma_div_q_sign(num: int, den: int)
    requires
        den >= 1,
    ensures
        num >= 0 ==> div_q(num, den) >= 0,
        num <= 0 ==> div_q(num, den) <= 0,
{
    if num >= 0 {
        assert(num / den >= 0) by (nonlinear_arith)
            requires
                num >= 0,
                den >= 1,
        ;
    } else {
        assert((-num) / den >= 0) by (nonlinear_arith)
            requires
                -num >= 0,
                den >= 1,
        ;
    }
}

/// Exact truncating division: when `den` divides `num` evenly the quotient
/// times `den` gives back `num`.
pub proof fn lemma_div_q_exact(m: int, den: int)
    requires
        den >= 1,
    ensures
        div_q(m * den, den) == m,
{
    if m >= 0 {
        lemma_div_multiples_vanish(m, den);
        assert(den * m == m * den) by (nonlinear_arith);
        assert(m * den >= 0) by (nonlinear_arith)
            requires
                m >= 0,
                den >= 1,
        ;
    } else {
        lemma_div_multiples_vanish(-m, den);
        assert(den * (-m) == -(m * den)) by (nonlinear_arith);
        assert(m * den < 0) by (nonlinear_arith)
            requires
                m < 0,
                den >= 1,
        ;
    }
}

/// Floor of the square root of a 128-bit unsigned integer, by bisection.
pub fn isqrt(n: u128) -> (r: u128)
    ensures
        r as int == sqrt_floor(n as int),
        r * r <= n,
{
    let mut lo: u128 = 0;
    let mut hi: u128 = 0xFFFF_FFFF_FFFF_FFFF;
    proof {
        let b: int = hi as int + 1;
        assert(sq(b) > n as int) by (nonlinear_arith)
            requires
                b == 0x1_0000_0000_0000_0000,
                n as int <= u128::MAX,
        ;
    }
    while lo < hi
        invariant
            lo <= hi,
            hi <= 0xFFFF_FFFF_FFFF_FFFF,
            sq(lo as int) <= n as int,
            (n as int) < sq(hi as int + 1),
        decreases hi - lo,
    {
        let mid: u128 = lo + (hi - lo + 1) / 2;
        proof {
            assert(mid * mid <= 0xFFFF_FFFF_FFFF_FFFF * 0xFFFF_FFFF_FFFF_FFFF) by (nonlinear_arith)
                requires
                    mid <= 0xFFFF_FFFF_FFFF_FFFFu128,
            ;
        }
        if mid * mid <= n {
            lo = mid;
        } else {
            hi = mid - 1;
        }
    }
    proof {
        lemma_sqrt_floor_unique(n as int, lo as int);
    }
    lo
}

/// Truncating signed division of an `i128` by a positive `u128`,
/// computed on magnitudes so that the rounding direction is explicit.
pub fn div_trunc(num: i128, den: u128) -> (r: i128)
    requires
        den >= 1,
        den <= i128::MAX as u128,
        num > i128::MIN,
    ensures
        r as int == div_q(num as int, den as int),
{
    if num >= 0 {
        let a: u128 = num as u128;
        let q: u128 = a / den;
        proof {
            lemma_div_is_ordered(q as int, a as int, 1);
            assert(q <= a) by {
                lemma_div_is_ordered(a as int, a as int, den as int);
                assert(a as int / den as int <= a as int) by (nonlinear_arith)
                    requires
                        den as int >= 1,
                        a as int >= 0,
                ;
            }
        }
        q as i128
    } else {
        let a: u128 = (-num) as u128;
        let q: u128 = a / den;
        proof {
            assert(a as int / den as int <= a as int) by (nonlinear_arith)
                requires
                    den as int >= 1,
                    a as int >= 0,
            ;
        }
        -(q as i128)
    }
}

} // verus!
