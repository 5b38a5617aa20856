//! Integer arithmetic shared by the colour routines: division that rounds
//! toward zero and reduction of a channel value to one byte.

use vstd::prelude::*;

verus! {

/// Absolute value of an integer.
pub open spec fn magnitude(a: int) -> int {
    if a >= 0 {
        a
    } else {
        -a
    }
}

/// Quotient of `a` by `b` rounded toward zero, as machine division rounds.
pub open spec fn trunc_div(a: int, b: int) -> int
    recommends
        b != 0,
{
    if a >= 0 {
        if b > 0 {
            a / b
        } else {
            -(a / (-b))
        }
    } else {
        if b > 0 {
            -((-a) / b)
        } else {
            (-a) / (-b)
        }
    }
}

/// The byte that remains of `x` when only its low eight bits are kept.
pub open spec fn wrap_byte(x: int) -> u8 {
    (x % 256) as u8
}

/// Divides rounding toward zero.
pub fn div_toward_zero(a: i64, b: i32) -> (q: i64)
    requires
        b != 0,
        a != i64::MIN,
    ensures
        q == trunc_div(a as int, b as int),
{
    let wide: i64 = b as i64;
    if wide > 0 {
        a / wide
    } else {
        let q: i64 = a / (-wide);
        -q
    }
}

/// Keeps the low eight bits of `x`.
pub fn low_byte(x: i64) -> (r: u8)
    ensures
        r == wrap_byte(x as int),
{
    let m: i64 = x % 256;
    if m < 0 {
        (m + 256) as u8
    } else {
        m as u8
    }
}

/// The product of a difference of a 32-bit value and a byte with a 32-bit
/// factor stays well inside 64 bits.
pub proof fn lemma_product_fits(d: int, s: int)
    requires
        -0x8000_00ff <= d <= 0x8000_00ff,
        -0x8000_0000 <= s <= 0x8000_0000,
    ensures
        -0x4000_0080_0000_0000 <= d * s <= 0x4000_0080_0000_0000,
{
    assert(-0x4000_0080_0000_0000 <= d * s <= 0x4000_0080_0000_0000) by (nonlinear_arith)
        requires
            -0x8000_00ff <= d <= 0x8000_00ff,
            -0x8000_0000 <= s <= 0x8000_0000,
    ;
}

/// The magnitude of a quotient rounded toward zero is at most that of the
/// dividend.
pub proof fn lemma_trunc_div_bound(a: int, b: int)
    requires
        b != 0,
    ensures
        magnitude(trunc_div(a, b)) <= magnitude(a),
{
    let m = magnitude(a);
    let n = magnitude(b);
    assert(0 <= m / n <= m) by (nonlinear_arith)
        requires
            m >= 0,
            n >= 1,
    ;
}

/// A whole multiple of the divisor divides exactly.
pub proof fn lemma_trunc_div_exact(d: int, n: int)
    requires
        n != 0,
    ensures
        trunc_div(d * n, n) == d,
{
    let m = magnitude(d);
    let k = magnitude(n);
    assert((m * k) / k == m) by (nonlinear_arith)
        requires
            m >= 0,
            k > 0,
    ;
    assert(magnitude(d * n) == m * k) by (nonlinear_arith)
        requires
            m == magnitude(d),
            k == magnitude(n),
    ;
    assert((d * n >= 0) == ((d >= 0) == (n > 0) || d == 0)) by (nonlinear_arith)
        requires
            n != 0,
    ;
}

} // verus!
