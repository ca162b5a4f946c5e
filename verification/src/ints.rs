//! Integer conversions and divisions with the machine's exact meaning.

use vstd::prelude::*;

verus! {

/// The value of `v as i32` for a `u32`: two's-complement reinterpretation.
pub open spec fn wrap_i32(v: u32) -> int {
    if v <= i32::MAX {
        v as int
    } else {
        v - 0x1_0000_0000
    }
}

/// `v as i32`, with its value stated.
pub fn cast_i32(v: u32) -> (r: i32)
    ensures
        r == wrap_i32(v),
{
    assert(v <= 0x7fff_ffffu32 ==> v as i32 == v) by (bit_vector);
    assert(v > 0x7fff_ffffu32 ==> v as i32 == v - 0x1_0000_0000) by (bit_vector);
    #[verifier::truncate]
    (v as i32)
}

/// Quotient of `a` by a positive `b`, rounded toward zero.
pub open spec fn quot(a: int, b: int) -> int {
    if a >= 0 {
        a / b
    } else {
        -((-a) / b)
    }
}

/// Signed division by a positive divisor, rounding toward zero.
pub fn div_i32(a: i32, b: i32) -> (q: i32)
    requires
        b > 0,
    ensures
        q == quot(a as int, b as int),
{
    let n: i64 = a as i64;
    let d: i64 = b as i64;
    if n >= 0 {
        proof {
            lemma_quot_bound(n as int, d as int);
        }
        (n / d) as i32
    } else {
        proof {
            lemma_quot_bound(-n, d as int);
        }
        (-((-n) / d)) as i32
    }
}

proof fn lemma_quot_bound(n: int, d: int)
    requires
        0 <= n,
        0 < d,
    ensures
        0 <= n / d <= n,
{
    vstd::arithmetic::div_mod::lemma_div_pos_is_pos(n, d);
    vstd::arithmetic::div_mod::lemma_div_is_ordered_by_denominator(n, 1, d);
}

/// The larger of two values.
pub open spec fn max_of(a: int, b: int) -> int {
    if a >= b {
        a
    } else {
        b
    }
}

/// The smaller of two values.
pub open spec fn min_of(a: int, b: int) -> int {
    if a <= b {
        a
    } else {
        b
    }
}

/// `v` brought into `lo..=hi`.
pub open spec fn clamped(v: int, lo: int, hi: int) -> int {
    if v < lo {
        lo
    } else if v > hi {
        hi
    } else {
        v
    }
}

/// Casting keeps the low 32 bits: the result differs from the value by a
/// multiple of 2^32, and is the one such number that is an `i32`.
pub proof fn cast_keeps_the_low_bits(v: u32, r: i32)
    requires
        call_ensures(cast_i32, (v,), r),
    ensures
        r == v || r + 0x1_0000_0000 == v,
        v <= 0x7fff_ffff ==> r == v,
{
}

/// A quotient times its divisor comes within one divisor of the dividend, never
/// beyond it, and on the same side of zero.
pub proof fn division_rounds_toward_zero(a: i32, b: i32, q: i32)
    requires
        b > 0,
        call_ensures(div_i32, (a, b), q),
    ensures
        a >= 0 ==> 0 <= b * q <= a < b * q + b,
        a <= 0 ==> b * q - b < a <= b * q <= 0,
{
    let n = if a >= 0 {
        a as int
    } else {
        -(a as int)
    };
    let d = b as int;
    vstd::arithmetic::div_mod::lemma_fundamental_div_mod(n, d);
    vstd::arithmetic::div_mod::lemma_div_pos_is_pos(n, d);
    assert(0 <= d * (n / d)) by (nonlinear_arith)
        requires
            0 <= n / d,
            0 < d,
    ;
    assert(d * (-(n / d)) == -(d * (n / d))) by (nonlinear_arith);
}

/// The larger and the smaller of two values are those values, in order.
pub proof fn larger_and_smaller(a: int, b: int)
    ensures
        min_of(a, b) <= a <= max_of(a, b),
        min_of(a, b) <= b <= max_of(a, b),
        min_of(a, b) + max_of(a, b) == a + b,
        min_of(a, b) == a || min_of(a, b) == b,
{
}

/// A value that is brought into a range lies in it, as near to where it was as
/// any other of the range.
pub proof fn clamping_goes_no_further_than_needed(v: int, lo: int, hi: int, other: int)
    requires
        lo <= other <= hi,
    ensures
        lo <= clamped(v, lo, hi) <= hi,
        v <= clamped(v, lo, hi) ==> clamped(v, lo, hi) <= v || clamped(v, lo, hi) <= other,
        v >= clamped(v, lo, hi) ==> clamped(v, lo, hi) >= v || clamped(v, lo, hi) >= other,
{
}

} // verus!
