//! Saturating and clamping integer operations with exact mathematical meanings.

use vstd::prelude::*;

verus! {

/// The larger of two integers.
pub open spec fn spec_max(a: int, b: int) -> int {
    if a >= b {
        a
    } else {
        b
    }
}

/// The smaller of two integers.
pub open spec fn spec_min(a: int, b: int) -> int {
    if a <= b {
        a
    } else {
        b
    }
}

/// `value` moved to the nearest point of `low..=high`.
pub open spec fn clamped(value: int, low: int, high: int) -> int {
    if value < low {
        low
    } else if value > high {
        high
    } else {
        value
    }
}

/// The distance between two integers.
pub open spec fn distance(a: int, b: int) -> int {
    if a >= b {
        a - b
    } else {
        b - a
    }
}

/// `a` divided by a positive `b`, rounded toward zero.
pub open spec fn trunc_div(a: int, b: int) -> int {
    if a >= 0 {
        a / b
    } else {
        -((-a) / b)
    }
}

pub open spec fn saturated_i64(value: int) -> int {
    clamped(value, i64::MIN as int, i64::MAX as int)
}

pub open spec fn saturated_u64(value: int) -> int {
    clamped(value, 0, u64::MAX as int)
}

pub open spec fn saturated_u32(value: int) -> int {
    clamped(value, 0, u32::MAX as int)
}

pub fn max_i64(a: i64, b: i64) -> (r: i64)
    ensures
        r == spec_max(a as int, b as int),
{
    if a >= b {
        a
    } else {
        b
    }
}

pub fn max_u32(a: u32, b: u32) -> (r: u32)
    ensures
        r == spec_max(a as int, b as int),
{
    if a >= b {
        a
    } else {
        b
    }
}

pub fn max_u64(a: u64, b: u64) -> (r: u64)
    ensures
        r == spec_max(a as int, b as int),
{
    if a >= b {
        a
    } else {
        b
    }
}

pub fn min_u64(a: u64, b: u64) -> (r: u64)
    ensures
        r == spec_min(a as int, b as int),
{
    if a <= b {
        a
    } else {
        b
    }
}

pub fn clamp_i64(value: i64, low: i64, high: i64) -> (r: i64)
    requires
        low <= high,
    ensures
        r == clamped(value as int, low as int, high as int),
{
    if value < low {
        low
    } else if value > high {
        high
    } else {
        value
    }
}

fn narrow_i64(value: i128) -> (r: i64)
    ensures
        r == saturated_i64(value as int),
{
    if value < i64::MIN as i128 {
        i64::MIN
    } else if value > i64::MAX as i128 {
        i64::MAX
    } else {
        value as i64
    }
}

pub fn saturating_add_i64(a: i64, b: i64) -> (r: i64)
    ensures
        r == saturated_i64(a + b),
{
    narrow_i64(a as i128 + b as i128)
}

pub fn saturating_sub_i64(a: i64, b: i64) -> (r: i64)
    ensures
        r == saturated_i64(a - b),
{
    narrow_i64(a as i128 - b as i128)
}

/// Saturating product with a factor that fits in sixteen bits.
pub fn saturating_mul_i64(a: i64, factor: u16) -> (r: i64)
    ensures
        r == saturated_i64(a * factor),
{
    proof {
        lemma_small_product(a as int, factor as int);
    }
    narrow_i64(a as i128 * factor as i128)
}

proof fn lemma_small_product(a: int, factor: int)
    by (nonlinear_arith)
    requires
        i64::MIN <= a <= i64::MAX,
        0 <= factor <= u16::MAX,
    ensures
        i64::MIN * 65536 <= a * factor <= i64::MAX * 65536,
{
}

pub fn saturating_mul_u64(a: u64, b: u64) -> (r: u64)
    ensures
        r == saturated_u64(a * b),
{
    assert(0 <= a * b) by (nonlinear_arith)
        requires
            0 <= a,
            0 <= b,
    ;
    match a.checked_mul(b) {
        Some(product) => product,
        None => u64::MAX,
    }
}

/// The magnitude of a signed value.
pub fn magnitude(value: i64) -> (r: u64)
    ensures
        r == distance(value as int, 0),
{
    if value >= 0 {
        value as u64
    } else {
        (-(value as i128)) as u64
    }
}

pub fn distance_i64(a: i64, b: i64) -> (r: u64)
    ensures
        r == distance(a as int, b as int),
{
    if a >= b {
        (a as i128 - b as i128) as u64
    } else {
        (b as i128 - a as i128) as u64
    }
}

pub fn distance_u8(a: u8, b: u8) -> (r: u8)
    ensures
        r == distance(a as int, b as int),
{
    if a >= b {
        a - b
    } else {
        b - a
    }
}

/// Division by a positive divisor, rounded toward zero.
pub fn trunc_div_i64(a: i64, b: u32) -> (r: i64)
    requires
        b > 0,
    ensures
        r == trunc_div(a as int, b as int),
{
    let quotient: u64 = magnitude(a) / b as u64;
    proof {
        assert(quotient <= magnitude_of(a)) by (nonlinear_arith)
            requires
                quotient == magnitude_of(a) / (b as int),
                b > 0,
                magnitude_of(a) >= 0,
        ;
    }
    if a >= 0 {
        quotient as i64
    } else {
        (-(quotient as i128)) as i64
    }
}

spec fn magnitude_of(a: i64) -> int {
    distance(a as int, 0)
}

/// The greater and the lesser of two numbers are among them and bound them.
pub proof fn law_extremes_bound_both(a: u64, b: u64, high: u64, low: u64, c: i64, d: i64, top: i64)
    requires
        call_ensures(max_u64, (a, b), high),
        call_ensures(min_u64, (a, b), low),
        call_ensures(max_i64, (c, d), top),
    ensures
        low <= a <= high && low <= b <= high,
        high == a || high == b,
        low == a || low == b,
        top >= c && top >= d && (top == c || top == d),
{
}

/// A clamped number lies in the range, and is the number itself where that does.
pub proof fn law_clamped_lies_in_the_range(value: i64, low: i64, high: i64, r: i64)
    requires
        call_ensures(clamp_i64, (value, low, high), r),
        low <= high,
    ensures
        low <= r <= high,
        low <= value <= high ==> r == value,
        value < low ==> r == low,
        value > high ==> r == high,
{
}

/// A result that fits is exact; one that does not is the nearest that does.
pub proof fn law_saturation_is_exact_where_it_can_be(
    a: i64,
    b: i64,
    factor: u16,
    sum: i64,
    difference: i64,
    product: i64,
)
    requires
        call_ensures(saturating_add_i64, (a, b), sum),
        call_ensures(saturating_sub_i64, (a, b), difference),
        call_ensures(saturating_mul_i64, (a, factor), product),
    ensures
        i64::MIN <= a + b <= i64::MAX ==> sum == a + b,
        a + b > i64::MAX ==> sum == i64::MAX,
        a + b < i64::MIN ==> sum == i64::MIN,
        i64::MIN <= a - b <= i64::MAX ==> difference == a - b,
        a - b > i64::MAX ==> difference == i64::MAX,
        a - b < i64::MIN ==> difference == i64::MIN,
        i64::MIN <= a * factor <= i64::MAX ==> product == a * factor,
        a * factor > i64::MAX ==> product == i64::MAX,
        a * factor < i64::MIN ==> product == i64::MIN,
{
}

/// A distance is the same from either side, and none only between equals.
pub proof fn law_distance_is_between_both(a: i64, b: i64, r: u64, s: u64, c: u8, d: u8, t: u8)
    requires
        call_ensures(distance_i64, (a, b), r),
        call_ensures(distance_i64, (b, a), s),
        call_ensures(distance_u8, (c, d), t),
    ensures
        r == s,
        a + r == b || b + r == a,
        c + t == d || d + t == c,
{
}

/// A quotient toward zero, times its divisor, comes as near as it can without passing.
pub proof fn law_quotient_is_toward_zero(a: i64, b: u32, r: i64)
    requires
        call_ensures(trunc_div_i64, (a, b), r),
        b > 0,
    ensures
        a >= 0 ==> r >= 0 && r * b <= a < r * b + b,
        a < 0 ==> r <= 0 && r * b - b < a <= r * b,
{
    let n = if a >= 0 {
        a as int
    } else {
        -(a as int)
    };
    let d = b as int;
    let q = n / d;
    assert(q * d <= n < q * d + d && q >= 0) by (nonlinear_arith)
        requires
            d > 0,
            n >= 0,
            q == n / d,
    ;
    assert((-q) * d == -(q * d)) by (nonlinear_arith);
}

/// The greater of two numbers is one of them and below neither, a product that fits is
/// exact and any other the greatest number, and a magnitude has no sign.
pub proof fn law_products_and_magnitudes(
    a: u32,
    b: u32,
    high: u32,
    c: u64,
    d: u64,
    product: u64,
    value: i64,
    size: u64,
)
    requires
        call_ensures(max_u32, (a, b), high),
        call_ensures(saturating_mul_u64, (c, d), product),
        call_ensures(magnitude, (value,), size),
    ensures
        high >= a && high >= b && (high == a || high == b),
        c * d <= u64::MAX ==> product == c * d,
        c * d > u64::MAX ==> product == u64::MAX,
        value >= 0 ==> size == value,
        value < 0 ==> size == -value,
{
    assert(c * d >= 0) by (nonlinear_arith);
}

} // verus!
