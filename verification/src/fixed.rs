//! Fixed-point arithmetic shared by the whole crate.
//!
//! A real number `v` is represented by the integer `v * UNIT`, so `UNIT`
//! itself stands for `1.0`. Products of two fixed-point values are scaled
//! back down by `UNIT`, truncating toward zero.
use vstd::prelude::*;

verus! {

/// The fixed-point scale: one real unit.
pub const UNIT: i64 = 10_000_000;

/// Largest coordinate magnitude the error models accept
/// (`100_000_000.0` in real units).
pub const COORD_LIMIT: i64 = 1_000_000_000_000_000;

/// Largest dimension the error models accept.
pub const MAX_DIMENSION: usize = 1000;

/// Absolute value of a mathematical integer.
pub open spec fn abs(a: int) -> int {
    if a >= 0 {
        a
    } else {
        -a
    }
}

/// Quotient truncated toward zero, for a positive divisor.
pub open spec fn quot_trunc(a: int, d: int) -> int {
    if a >= 0 {
        a / d
    } else {
        -((-a) / d)
    }
}

/// The fixed-point product of `a` and `b`: `a * b / UNIT`, truncated
/// toward zero.
pub open spec fn fixmul_spec(a: int, b: int) -> int {
    quot_trunc(a * b, UNIT as int)
}

/// Magnitude of an `i64`, widened so that `i64::MIN` is representable.
pub(crate) fn magnitude(a: i64) -> (r: u128)
    ensures
        r == abs(a as int),
{
    if a >= 0 {
        a as u128
    } else {
        (-(a as i128)) as u128
    }
}

proof fn lemma_abs_mul(a: int, b: int)
    ensures
        abs(a * b) == abs(a) * abs(b),
{
    assert(abs(a * b) == abs(a) * abs(b)) by (nonlinear_arith);
}

/// Truncated division by a positive divisor never increases magnitude-order:
/// if `abs(a) <= abs(b)` then `abs(quot_trunc(a, d)) <= abs(quot_trunc(b, d))`.
proof fn lemma_quot_trunc_ordered(a: int, b: int, d: int)
    requires
        d > 0,
        abs(a) <= abs(b),
    ensures
        abs(quot_trunc(a, d)) <= abs(quot_trunc(b, d)),
{
    vstd::arithmetic::div_mod::lemma_div_is_ordered(abs(a), abs(b), d);
    assert(abs(a) / d >= 0) by {
        vstd::arithmetic::div_mod::lemma_div_pos_is_pos(abs(a), d);
    }
    assert(abs(b) / d >= 0) by {
        vstd::arithmetic::div_mod::lemma_div_pos_is_pos(abs(b), d);
    }
    assert(abs(quot_trunc(a, d)) == abs(a) / d);
    assert(abs(quot_trunc(b, d)) == abs(b) / d);
}

/// The magnitude of a fixed-point product is at most `abs(a)` whenever the
/// second factor is at most one (`abs(b) <= UNIT`).
pub proof fn lemma_fixmul_bounded(a: int, b: int)
    requires
        abs(b) <= UNIT as int,
    ensures
        abs(fixmul_spec(a, b)) <= abs(a),
{
    lemma_abs_mul(a, b);
    assert(abs(a) * abs(b) <= abs(a) * (UNIT as int)) by (nonlinear_arith)
        requires
            abs(a) >= 0,
            abs(b) <= UNIT as int,
    ;
    lemma_quot_trunc_ordered(a * b, abs(a) * (UNIT as int), UNIT as int);
    assert(quot_trunc(abs(a) * (UNIT as int), UNIT as int) == abs(a)) by {
        vstd::arithmetic::div_mod::lemma_div_by_multiple(abs(a), UNIT as int);
    }
}

/// The fixed-point product, truncated toward zero.
pub fn fixmul(a: i64, b: i64) -> (r: i64)
    requires
        abs((a as int) * (b as int)) <= (UNIT as int) * (i64::MAX as int),
    ensures
        r == fixmul_spec(a as int, b as int),
{
    let neg: bool = (a < 0) != (b < 0);
    let am: u128 = magnitude(a);
    let bm: u128 = magnitude(b);
    proof {
        assert(am * bm < 0x1_0000_0000_0000_0000_0000_0000_0000_0000int) by (nonlinear_arith)
            requires
                am <= 0x8000_0000_0000_0000u128,
                bm <= 0x8000_0000_0000_0000u128,
        ;
    }
    let p: u128 = am * bm;
    proof {
        lemma_abs_mul(a as int, b as int);
        assert(p == abs((a as int) * (b as int)));
        vstd::arithmetic::div_mod::lemma_div_is_ordered(
            p as int,
            (UNIT as int) * (i64::MAX as int),
            UNIT as int,
        );
        assert(((UNIT as int) * (i64::MAX as int)) / (UNIT as int) == i64::MAX as int) by {
            vstd::arithmetic::div_mod::lemma_div_by_multiple(i64::MAX as int, UNIT as int);
        }
        vstd::arithmetic::div_mod::lemma_div_pos_is_pos(p as int, UNIT as int);
    }
    let q: u128 = p / (UNIT as u128);
    if neg {
        proof {
            assert((a as int) * (b as int) <= 0) by (nonlinear_arith)
                requires
                    (a < 0) != (b < 0),
            ;
        }
        -(q as i64)
    } else {
        proof {
            assert((a as int) * (b as int) >= 0) by (nonlinear_arith)
                requires
                    (a < 0) == (b < 0),
            ;
        }
        q as i64
    }
}

} // verus!
