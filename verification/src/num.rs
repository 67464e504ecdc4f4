//! Saturating, clamping and truncating integer arithmetic with the meaning
//! Rust's integer methods give them.
use vstd::prelude::*;

verus! {

pub open spec fn clamp_int(v: int, lo: int, hi: int) -> int {
    if v < lo {
        lo
    } else if v > hi {
        hi
    } else {
        v
    }
}

/// Saturation into the `i64` range.
pub open spec fn sat_i64(v: int) -> int {
    clamp_int(v, i64::MIN as int, i64::MAX as int)
}

/// Saturation into the `u64` range.
pub open spec fn sat_u64(v: int) -> int {
    clamp_int(v, 0, u64::MAX as int)
}

pub open spec fn abs_int(v: int) -> int {
    if v < 0 {
        -v
    } else {
        v
    }
}

pub open spec fn signum(v: int) -> int {
    if v > 0 {
        1
    } else if v < 0 {
        -1
    } else {
        0
    }
}

pub open spec fn min_int(a: int, b: int) -> int {
    if a <= b {
        a
    } else {
        b
    }
}

pub open spec fn max_int(a: int, b: int) -> int {
    if a >= b {
        a
    } else {
        b
    }
}

/// Division rounding toward zero, as Rust's `/` on signed integers.
pub open spec fn trunc_div(a: int, d: int) -> int {
    if (a >= 0) == (d > 0) {
        abs_int(a) / abs_int(d)
    } else {
        -(abs_int(a) / abs_int(d))
    }
}

/// Remainder with the sign of the dividend, as Rust's `%` on signed integers.
pub open spec fn trunc_rem(a: int, d: int) -> int {
    a - d * trunc_div(a, d)
}

pub fn sat_add_i64(a: i64, b: i64) -> (r: i64)
    ensures
        r == sat_i64(a + b),
{
    let s = a as i128 + b as i128;
    clamp_to_i64(s)
}

pub fn sat_sub_i64(a: i64, b: i64) -> (r: i64)
    ensures
        r == sat_i64(a - b),
{
    let s = a as i128 - b as i128;
    clamp_to_i64(s)
}

pub fn sat_mul_i64(a: i64, b: i64) -> (r: i64)
    ensures
        r == sat_i64(a * b),
{
    assert(-0x4000_0000_0000_0000_0000_0000_0000_0000 <= (a as int) * (b as int) <= 0x4000_0000_0000_0000_0000_0000_0000_0000) by (nonlinear_arith)
        requires
            i64::MIN <= a <= i64::MAX,
            i64::MIN <= b <= i64::MAX,
    ;
    let s = a as i128 * b as i128;
    clamp_to_i64(s)
}

pub fn sat_neg_i64(a: i64) -> (r: i64)
    ensures
        r == sat_i64(-a),
{
    if a == i64::MIN {
        i64::MAX
    } else {
        -a
    }
}

pub fn sat_add_u64(a: u64, b: u64) -> (r: u64)
    ensures
        r == sat_u64(a + b),
{
    if a > u64::MAX - b {
        u64::MAX
    } else {
        a + b
    }
}

pub fn sat_sub_u64(a: u64, b: u64) -> (r: u64)
    ensures
        r == sat_u64(a - b),
{
    if a < b {
        0
    } else {
        a - b
    }
}

pub fn sat_mul_u64(a: u64, b: u64) -> (r: u64)
    ensures
        r == sat_u64(a * b),
{
    assert(0 <= (a as int) * (b as int) <= 0xFFFF_FFFF_FFFF_FFFF_FFFF_FFFF_FFFF_FFFF) by (nonlinear_arith)
        requires
            0 <= a <= u64::MAX,
            0 <= b <= u64::MAX,
    ;
    let p = a as u128 * b as u128;
    if p > u64::MAX as u128 {
        u64::MAX
    } else {
        p as u64
    }
}

pub fn clamp_to_i64(v: i128) -> (r: i64)
    ensures
        r == sat_i64(v as int),
{
    if v < i64::MIN as i128 {
        i64::MIN
    } else if v > i64::MAX as i128 {
        i64::MAX
    } else {
        v as i64
    }
}

pub fn clamp_i128(v: i128, lo: i128, hi: i128) -> (r: i128)
    requires
        lo <= hi,
    ensures
        r == clamp_int(v as int, lo as int, hi as int),
{
    if v < lo {
        lo
    } else if v > hi {
        hi
    } else {
        v
    }
}

/// Signed division by a positive divisor, rounding toward zero.
pub fn div_trunc(a: i128, d: i128) -> (r: i128)
    requires
        d > 0,
    ensures
        r == trunc_div(a as int, d as int),
{
    if a >= 0 {
        a / d
    } else {
        let m: i128 = -(a + 1);
        let q = m / d;
        let rem = m % d;
        assert(0 <= q <= m) by (nonlinear_arith)
            requires
                m >= 0,
                d > 0,
                q == m / d,
        ;
        let ghost x = abs_int(a as int);
        assert(x == m + 1);
        if rem + 1 == d {
            assert((m + 1) / (d as int) == q + 1) by (nonlinear_arith)
                requires
                    m >= 0,
                    d > 0,
                    q == m / d,
                    rem == m % d,
                    rem + 1 == d,
            {
                assert(m == q * d + rem);
                assert(m + 1 == (q + 1) * d);
            }
            -q - 1
        } else {
            assert((m + 1) / (d as int) == q) by (nonlinear_arith)
                requires
                    m >= 0,
                    d > 0,
                    q == m / d,
                    rem == m % d,
                    rem + 1 != d,
            {
                assert(m == q * d + rem);
                assert(0 <= rem < d);
                assert(m + 1 == q * d + (rem + 1));
            }
            -q
        }
    }
}

/// Rust's `/` on `i128` for any divisor but zero, on a dividend other than
/// `i128::MIN`.
pub fn div_trunc_signed(a: i128, d: i128) -> (r: i128)
    requires
        d != 0,
        d > i128::MIN,
        a > i128::MIN,
    ensures
        r == trunc_div(a as int, d as int),
{
    if d > 0 {
        div_trunc(a, d)
    } else {
        let q = div_trunc(a, -d);
        assert(trunc_div(a as int, d as int) == -trunc_div(a as int, -d as int));
        -q
    }
}

pub fn abs_i64_checked(v: i64) -> (r: Option<i64>)
    ensures
        v == i64::MIN ==> r is None,
        v != i64::MIN ==> r == Some(abs_int(v as int) as i64),
{
    if v == i64::MIN {
        None
    } else if v < 0 {
        Some(-v)
    } else {
        Some(v)
    }
}

pub fn signum_i64(v: i64) -> (r: i64)
    ensures
        r == signum(v as int),
{
    if v > 0 {
        1
    } else if v < 0 {
        -1
    } else {
        0
    }
}

pub fn min_i64(a: i64, b: i64) -> (r: i64)
    ensures
        r == min_int(a as int, b as int),
{
    if a <= b {
        a
    } else {
        b
    }
}

pub fn max_i64(a: i64, b: i64) -> (r: i64)
    ensures
        r == max_int(a as int, b as int),
{
    if a >= b {
        a
    } else {
        b
    }
}

pub fn min_u64(a: u64, b: u64) -> (r: u64)
    ensures
        r == min_int(a as int, b as int),
{
    if a <= b {
        a
    } else {
        b
    }
}

pub fn max_u64(a: u64, b: u64) -> (r: u64)
    ensures
        r == max_int(a as int, b as int),
{
    if a >= b {
        a
    } else {
        b
    }
}

/// Rust's `%` on `i64` by a positive divisor: the remainder carries the
/// sign of the dividend.
pub fn rem_trunc_i64(a: i64, d: i64) -> (r: i64)
    requires
        d > 0,
    ensures
        r == trunc_rem(a as int, d as int),
        -d < r < d,
        a >= 0 ==> r == a % d,
        a >= 0 ==> r >= 0,
        a < 0 ==> r <= 0,
{
    if a >= 0 {
        let r = a % d;
        proof {
            vstd::arithmetic::div_mod::lemma_fundamental_div_mod(a as int, d as int);
            vstd::arithmetic::div_mod::lemma_mod_pos_bound(a as int, d as int);
            assert(abs_int(a as int) == a && abs_int(d as int) == d);
            assert(trunc_div(a as int, d as int) == (a as int) / (d as int));
        }
        r
    } else {
        let m: i128 = -(a as i128);
        let rr: i128 = m % (d as i128);
        proof {
            vstd::arithmetic::div_mod::lemma_fundamental_div_mod(m as int, d as int);
            vstd::arithmetic::div_mod::lemma_mod_pos_bound(m as int, d as int);
            assert(abs_int(a as int) == m);
            let q = (m as int) / (d as int);
            assert(trunc_div(a as int, d as int) == -q);
            assert((d as int) * (-q) == -((d as int) * q)) by (nonlinear_arith);
        }
        -(rr as i64)
    }
}

} // verus!
