//! Integer-only analytics math: floor square roots and fixed-point smoothing.

use vstd::prelude::*;
use vstd::arithmetic::div_mod::{lemma_div_is_ordered, lemma_div_multiples_vanish};
use vstd::arithmetic::mul::{lemma_mul_inequality, lemma_mul_is_distributive_add};

verus! {

/// `r` is the floor of the square root of the positive integer `n`.
pub open spec fn is_floor_sqrt(r: int, n: int) -> bool {
    &&& 0 <= r
    &&& r * r <= n
    &&& n < (r + 1) * (r + 1)
}

/// The floor of the square root of `n`, and 0 for every `n <= 0`.
pub open spec fn floor_sqrt(n: int) -> int {
    if n <= 0 {
        0
    } else {
        choose|r: int| is_floor_sqrt(r, n)
    }
}

/// At most one integer is the floor square root of `n`.
pub proof fn lemma_floor_sqrt_unique(a: int, b: int, n: int)
    requires
        is_floor_sqrt(a, n),
        is_floor_sqrt(b, n),
    ensures
        a == b,
{
    if a < b {
        assert((a + 1) * (a + 1) <= b * b) by (nonlinear_arith)
            requires
                0 <= a,
                a + 1 <= b,
        ;
    } else if b < a {
        assert((b + 1) * (b + 1) <= a * a) by (nonlinear_arith)
            requires
                0 <= b,
                b + 1 <= a,
        ;
    }
}

/// Every root that satisfies the floor-square-root bounds is the floor square root.
pub proof fn lemma_floor_sqrt_is(r: int, n: int)
    requires
        n > 0,
        is_floor_sqrt(r, n),
    ensures
        floor_sqrt(n) == r,
{
    let c = choose|x: int| is_floor_sqrt(x, n);
    lemma_floor_sqrt_unique(c, r, n);
}

/// Compute the floor of the integer square root for a non-negative value;
/// every value `<= 0` has root 0.
pub fn integer_sqrt(value: i128) -> (root: i128)
    ensures
        root == floor_sqrt(value as int),
        value > 0 ==> is_floor_sqrt(root as int, value as int),
{
    if value <= 0 {
        return 0;
    }
    let mut lo: i128 = 1;
    let mut hi: i128 = value;
    assert(value < (value + 1) * (value + 1)) by (nonlinear_arith)
        requires
            value > 0,
    ;
    while lo <= hi
        invariant
            value > 0,
            1 <= lo,
            0 <= hi <= value,
            lo <= hi + 1,
            (lo - 1) * (lo - 1) <= value,
            value < (hi + 1) * (hi + 1),
        decreases hi + 1 - lo,
    {
        let mid = lo + (hi - lo) / 2;
        assert(lo <= mid <= hi);
        match mid.checked_mul(mid) {
            Some(square) => {
                if square == value {
                    assert(value < (mid + 1) * (mid + 1)) by (nonlinear_arith)
                        requires
                            mid >= 1,
                            mid * mid == value,
                    ;
                    proof {
                        lemma_floor_sqrt_is(mid as int, value as int);
                    }
                    return mid;
                } else if square < value {
                    assert(mid < value) by (nonlinear_arith)
                        requires
                            mid >= 1,
                            mid * mid < value,
                    ;
                    lo = mid + 1;
                } else {
                    hi = mid - 1;
                }
            },
            None => {
                hi = mid - 1;
            },
        }
    }
    proof {
        lemma_floor_sqrt_is(hi as int, value as int);
    }
    hi
}

/// Fixed-point scale of the smoothing weights: `1 << 16`.
pub open spec fn smoothing_scale() -> int {
    65536
}

/// Basis points that stand for a weight of one whole.
pub open spec fn smoothing_full_bps() -> int {
    10_000
}

/// `i128` saturation of an unbounded integer.
pub open spec fn saturate_i128(x: int) -> int {
    if x > i128::MAX {
        i128::MAX as int
    } else if x < i128::MIN {
        i128::MIN as int
    } else {
        x
    }
}

/// Division by a positive divisor that rounds toward zero, as `i128` division does.
pub open spec fn div_toward_zero(a: int, d: int) -> int {
    if a >= 0 {
        a / d
    } else {
        -((-a) / d)
    }
}

/// The fixed-point weight of the new price for a smoothing factor `alpha`
/// given in basis points.
pub open spec fn smoothing_weight(alpha: int) -> int {
    if alpha * smoothing_scale() <= i128::MAX {
        (alpha * smoothing_scale()) / smoothing_full_bps()
    } else {
        i128::MAX as int
    }
}

/// The smoothed value: `price` and `previous` blended in the fixed-point
/// scale by `alpha` basis points, with `i128` saturation on the way, and
/// `price` itself for every `alpha <= 0`.
pub open spec fn smoothed_value(price: int, previous: int, alpha: int) -> int {
    if alpha <= 0 {
        price
    } else {
        let weight = smoothing_weight(alpha);
        let complement = saturate_i128(smoothing_scale() - weight);
        let numerator = if i128::MIN <= price * weight <= i128::MAX
            && i128::MIN <= previous * complement <= i128::MAX {
            saturate_i128(price * weight + previous * complement)
        } else {
            i128::MAX as int
        };
        div_toward_zero(numerator, smoothing_scale())
    }
}

/// The blend of `price` and `previous` for `alpha` needs no saturation:
/// both weighted terms and their sum fit in `i128`.
pub open spec fn blend_fits(price: int, previous: int, alpha: int) -> bool {
    let weight = smoothing_weight(alpha);
    let complement = smoothing_scale() - weight;
    &&& i128::MIN <= price * weight <= i128::MAX
    &&& i128::MIN <= previous * complement <= i128::MAX
    &&& i128::MIN <= price * weight + previous * complement <= i128::MAX
}

/// Division toward zero by a positive divisor keeps a quotient between the
/// bounds that the dividend has as multiples of the divisor.
pub(crate) proof fn lemma_div_toward_zero_between(p: int, w: int, lo: int, hi: int)
    requires
        w > 0,
        lo * w <= p <= hi * w,
    ensures
        lo <= div_toward_zero(p, w) <= hi,
{
    assert(lo * w == w * lo && hi * w == w * hi) by (nonlinear_arith);
    lemma_div_multiples_vanish(lo, w);
    lemma_div_multiples_vanish(hi, w);
    lemma_div_multiples_vanish(-lo, w);
    lemma_div_multiples_vanish(-hi, w);
    assert(w * (-lo) == -(w * lo) && w * (-hi) == -(w * hi)) by (nonlinear_arith);
    if p >= 0 {
        lemma_div_is_ordered(w * lo, p, w);
        lemma_div_is_ordered(p, w * hi, w);
    } else {
        lemma_div_is_ordered(-p, w * (-lo), w);
        lemma_div_is_ordered(w * (-hi), -p, w);
    }
}

proof fn lemma_weight_within_scale(alpha: int)
    requires
        0 < alpha <= smoothing_full_bps(),
    ensures
        0 <= smoothing_weight(alpha) <= smoothing_scale(),
{
    lemma_div_is_ordered(0, alpha * 65536, 10_000);
    lemma_div_is_ordered(alpha * 65536, 655_360_000int, 10_000);
    assert(10_000int * 65536int == 655_360_000int);
    lemma_div_multiples_vanish(65536, 10_000);
    lemma_div_multiples_vanish(0, 10_000);
}

/// Smoothing is a weighted average: with a factor of at most one whole
/// (`0 < alpha <= 10_000`) and no saturation, the smoothed value lies
/// between the previous value and the new price.
pub proof fn lemma_smoothed_value_between(price: int, previous: int, alpha: int)
    requires
        0 < alpha <= smoothing_full_bps(),
        blend_fits(price, previous, alpha),
    ensures
        price <= previous ==> price <= smoothed_value(price, previous, alpha) <= previous,
        previous <= price ==> previous <= smoothed_value(price, previous, alpha) <= price,
{
    lemma_weight_within_scale(alpha);
    let w = smoothing_weight(alpha);
    let c = smoothing_scale() - w;
    let lo = if price <= previous { price } else { previous };
    let hi = if price <= previous { previous } else { price };
    lemma_mul_inequality(lo, price, w);
    lemma_mul_inequality(price, hi, w);
    lemma_mul_inequality(lo, previous, c);
    lemma_mul_inequality(previous, hi, c);
    lemma_mul_is_distributive_add(lo, w, c);
    lemma_mul_is_distributive_add(hi, w, c);
    assert(saturate_i128(c) == c);
    assert(saturate_i128(price * w + previous * c) == price * w + previous * c);
    lemma_div_toward_zero_between(price * w + previous * c, smoothing_scale(), lo, hi);
}

/// Smoothing a value toward itself returns it, whenever the blend needs no
/// saturation.
pub proof fn lemma_smoothing_toward_itself(price: int, alpha: int)
    requires
        alpha <= 0 || blend_fits(price, price, alpha),
    ensures
        smoothed_value(price, price, alpha) == price,
{
    if alpha > 0 {
        let w = smoothing_weight(alpha);
        let c = smoothing_scale() - w;
        lemma_mul_is_distributive_add(price, w, c);
        assert(saturate_i128(c) == c);
        assert(price * smoothing_scale() == smoothing_scale() * price) by (nonlinear_arith);
        lemma_div_multiples_vanish(price, smoothing_scale());
        lemma_div_multiples_vanish(-price, smoothing_scale());
        assert(smoothing_scale() * (-price) == -(smoothing_scale() * price)) by (nonlinear_arith);
    }
}

/// The new price always carries the alpha share: for `0 < alpha <= 10_000`
/// and a blend that fits in `i128`, the smoothed value is the new price
/// weighted `w = alpha * 65536 / 10_000` plus the previous value weighted
/// `65536 - w`, over 65536, rounded toward zero, whichever way the price
/// moved.
pub proof fn lemma_smoothing_weights_new_price(price: int, previous: int, alpha: int)
    requires
        0 < alpha <= 10_000,
        i128::MIN <= price * (alpha * 65536 / 10_000) <= i128::MAX,
        i128::MIN <= previous * (65536 - alpha * 65536 / 10_000) <= i128::MAX,
        i128::MIN <= price * (alpha * 65536 / 10_000) + previous * (65536 - alpha * 65536 / 10_000)
            <= i128::MAX,
    ensures
        smoothed_value(price, previous, alpha) == div_toward_zero(
            price * (alpha * 65536 / 10_000) + previous * (65536 - alpha * 65536 / 10_000),
            65536,
        ),
{
    lemma_weight_within_scale(alpha);
}

/// A whole alpha of 10 000 basis points takes the new price as it is, for a
/// falling price as for a rising one.
pub proof fn lemma_full_alpha_takes_new_price(price: int, previous: int)
    requires
        i128::MIN <= price * 65536 <= i128::MAX,
    ensures
        smoothed_value(price, previous, 10_000) == price,
{
    assert(10_000int * 65536 / 10_000 == 65536);
    assert(previous * 0 == 0);
    assert(price * 65536 == 65536 * price) by (nonlinear_arith);
    lemma_div_multiples_vanish(price, 65536);
    lemma_div_multiples_vanish(-price, 65536);
    assert(65536 * (-price) == -(65536 * price)) by (nonlinear_arith);
}

pub(crate) fn saturating_add_i128(a: i128, b: i128) -> (sum: i128)
    ensures
        sum == saturate_i128(a + b),
{
    match a.checked_add(b) {
        Some(s) => s,
        None => if b > 0 {
            i128::MAX
        } else {
            i128::MIN
        },
    }
}

fn saturating_sub_i128(a: i128, b: i128) -> (diff: i128)
    ensures
        diff == saturate_i128(a - b),
{
    match a.checked_sub(b) {
        Some(d) => d,
        None => if b < 0 {
            i128::MAX
        } else {
            i128::MIN
        },
    }
}

/// Compute a smoothing update in a power-of-two fixed-point scale:
/// the new `price` gets weight `alpha / 10_000` and `previous` the rest.
/// Every `alpha <= 0` returns `price` unchanged.
pub fn compute_smoothed_value(price: i128, previous: i128, alpha: i128) -> (smoothed: i128)
    ensures
        smoothed == smoothed_value(price as int, previous as int, alpha as int),
{
    if alpha <= 0 {
        return price;
    }
    let max_weight: i128 = 1i128 << 16u32;
    assert(max_weight == 65536) by (bit_vector)
        requires
            max_weight == 1i128 << 16u32,
    ;
    let alpha_weight = match alpha.checked_mul(max_weight) {
        Some(weight) => weight / 10_000,
        None => i128::MAX,
    };
    let complement_weight = saturating_sub_i128(max_weight, alpha_weight);
    let numerator = match price.checked_mul(alpha_weight) {
        Some(weighted_price) => match previous.checked_mul(complement_weight) {
            Some(weighted_previous) => saturating_add_i128(weighted_price, weighted_previous),
            None => i128::MAX,
        },
        None => i128::MAX,
    };
    match numerator.checked_div(max_weight) {
        Some(quotient) => quotient,
        None => 0,
    }
}

} // verus!
