//! Exact-arithmetic model of the Black-Scholes pricing engine.
//!
//! Premiums and greeks are algebraic combinations of a handful of
//! transcendental quantities: discounted spot and strike, standard-normal
//! CDF and PDF values, the log-moneyness and the root of the time to
//! expiry.  The transcendental evaluations themselves are floating-point
//! work that stays with the caller; everything after them — the
//! sign-parameterized valuation formula, the greeks, the parity converter,
//! the `d1`/`d2` primitives and the seed-estimate edge policy — is computed
//! here over fixed-point integers with exact contracts.
//!
//! Scales: scalar inputs are `i64` values carrying `SCALE` (10^9) units per
//! whole; premiums and greeks come back as `i128` values carrying `SCALE2`
//! (10^18) units per whole, so that a product of two inputs needs no
//! rounding at all.  Where a formula forces an intermediate rescale or a
//! division, the contract states the truncating division that is performed.

use vstd::arithmetic::div_mod::{lemma_div_is_ordered, lemma_div_multiples_vanish, lemma_div_nonincreasing, lemma_div_pos_is_pos};
use vstd::prelude::*;

verus! {

/// Fixed-point unit of the scalar inputs: 10^9 units per whole.
pub const SCALE: i64 = 1_000_000_000;

/// Fixed-point unit of premiums and greeks: 10^18 units per whole.
pub const SCALE2: i128 = 1_000_000_000_000_000_000;

/// Cap on money amounts (spot, strike, premiums): one million wholes.
pub const AMOUNT_CAP: i64 = 1_000_000_000_000_000;

/// Cap on rates, yields, volatilities, times and densities: one hundred wholes.
pub const RATE_CAP: i64 = 100_000_000_000;

/// Truncating integer division (rounds toward zero), the division that the
/// executable code performs.
pub open spec fn tdiv(a: int, b: int) -> int
    recommends
        b > 0,
{
    if a >= 0 {
        a / b
    } else {
        -((-a) / b)
    }
}

/// The valuation sign: `+1` prices a call, `-1` a put.
pub open spec fn sign_of(is_call: bool) -> int {
    if is_call {
        1
    } else {
        -1
    }
}

/// The single sign-parameterized Black-Scholes valuation formula:
/// `sign * (dprice * cdf_sd1 - dstrike * cdf_sd2)`, where `dprice` and
/// `dstrike` are the discounted spot and strike and the CDF arguments are
/// already taken at `sign * d1` and `sign * d2`.
pub open spec fn spec_premium(sign: int, dprice: int, dstrike: int, cdf_sd1: int, cdf_sd2: int) -> int {
    sign * (dprice * cdf_sd1 - dstrike * cdf_sd2)
}

/// Full product of two scalar inputs; always fits a 128-bit result.
fn wide_product(a: i64, b: i64) -> (r: i128)
    ensures
        r == a as int * b as int,
{
    proof {
        assert(a as int * b as int <= 0x8000_0000_0000_0000 * 0x8000_0000_0000_0000
            && a as int * b as int >= -(0x8000_0000_0000_0000 * 0x8000_0000_0000_0000))
            by (nonlinear_arith)
            requires
                -0x8000_0000_0000_0000 <= a as int <= 0x7fff_ffff_ffff_ffff,
                -0x8000_0000_0000_0000 <= b as int <= 0x7fff_ffff_ffff_ffff,
        ;
    }
    (a as i128) * (b as i128)
}

/// Generic Black-Scholes premium over discounted terms and CDF values,
/// shared by the call and the put side; the products are exact, so the
/// result carries `SCALE2` units per whole.
fn generic_black_scholes(
    is_call: bool,
    dprice: i64,
    dstrike: i64,
    cdf_sd1: i64,
    cdf_sd2: i64,
) -> (r: i128)
    requires
        0 <= dprice <= AMOUNT_CAP,
        0 <= dstrike <= AMOUNT_CAP,
        0 <= cdf_sd1 <= SCALE,
        0 <= cdf_sd2 <= SCALE,
    ensures
        r == spec_premium(sign_of(is_call), dprice as int, dstrike as int, cdf_sd1 as int, cdf_sd2 as int),
{
    let x = wide_product(dprice, cdf_sd1);
    let y = wide_product(dstrike, cdf_sd2);
    proof {
        assert(0 <= dprice as int * cdf_sd1 as int <= 1000000000000000 * 1000000000
            && 0 <= dstrike as int * cdf_sd2 as int <= 1000000000000000 * 1000000000)
            by (nonlinear_arith)
            requires
                0 <= dprice as int <= 1000000000000000,
                0 <= dstrike as int <= 1000000000000000,
                0 <= cdf_sd1 as int <= 1000000000,
                0 <= cdf_sd2 as int <= 1000000000,
        ;
    }
    if is_call {
        x - y
    } else {
        y - x
    }
}

/// Call option premium over the discounted terms, `SCALE2` units per whole.
///
/// `cdf_d1` and `cdf_d2` are the standard-normal CDF values at `d1` and
/// `d2`; the discounted spot is `price * exp(-div_yield * T)` and the
/// discounted strike is `strike * exp(-rate * T)`, both supplied by the
/// caller in `SCALE` units.
pub fn call_premium(dprice: i64, dstrike: i64, cdf_d1: i64, cdf_d2: i64) -> (r: i128)
    requires
        0 <= dprice <= AMOUNT_CAP,
        0 <= dstrike <= AMOUNT_CAP,
        0 <= cdf_d1 <= SCALE,
        0 <= cdf_d2 <= SCALE,
    ensures
        r == spec_premium(1, dprice as int, dstrike as int, cdf_d1 as int, cdf_d2 as int),
{
    generic_black_scholes(true, dprice, dstrike, cdf_d1, cdf_d2)
}

/// Put option premium over the discounted terms, `SCALE2` units per whole.
///
/// `cdf_md1` and `cdf_md2` are the standard-normal CDF values at `-d1` and
/// `-d2`.
pub fn put_premium(dprice: i64, dstrike: i64, cdf_md1: i64, cdf_md2: i64) -> (r: i128)
    requires
        0 <= dprice <= AMOUNT_CAP,
        0 <= dstrike <= AMOUNT_CAP,
        0 <= cdf_md1 <= SCALE,
        0 <= cdf_md2 <= SCALE,
    ensures
        r == spec_premium(-1, dprice as int, dstrike as int, cdf_md1 as int, cdf_md2 as int),
{
    generic_black_scholes(false, dprice, dstrike, cdf_md1, cdf_md2)
}

/// Put-call parity, exactly.  Because one sign-parameterized formula prices
/// both sides, the relation `call - put == dprice - dstrike` is structural:
/// it needs only that the CDF values of the two sides are complements
/// (`N(d) + N(-d) == 1`), which the caller's normal distribution supplies.
/// No rounding enters, so the identity holds to the last unit.
pub proof fn lemma_put_call_parity(
    dprice: int,
    dstrike: int,
    cdf_d1: int,
    cdf_md1: int,
    cdf_d2: int,
    cdf_md2: int,
)
    requires
        cdf_d1 + cdf_md1 == SCALE,
        cdf_d2 + cdf_md2 == SCALE,
    ensures
        spec_premium(1, dprice, dstrike, cdf_d1, cdf_d2) - spec_premium(
            -1,
            dprice,
            dstrike,
            cdf_md1,
            cdf_md2,
        ) == (dprice - dstrike) * SCALE,
{
    assert(1 * (dprice * cdf_d1 - dstrike * cdf_d2) - (-1) * (dprice * cdf_md1 - dstrike
        * cdf_md2) == (dprice - dstrike) * (SCALE as int)) by (nonlinear_arith)
        requires
            cdf_d1 + cdf_md1 == SCALE as int,
            cdf_d2 + cdf_md2 == SCALE as int,
    ;
}

/// The parity conversion: from one side's market price to the other side's
/// theoretical price, `market - sign * (dprice - dstrike)` with everything
/// brought to `SCALE2` units.
pub open spec fn spec_callput_price(is_call_price: bool, market_price: int, dprice: int, dstrike: int) -> int {
    market_price - sign_of(is_call_price) * (dprice - dstrike) * SCALE
}

/// Converts a market premium from one side to the other by put-call parity
/// without re-pricing.  `is_call_price` names the side the given price
/// belongs to; the result is the other side's theoretical price.  The
/// subtraction is exact: converting a price there and back returns it
/// unchanged (see [`lemma_callput_price_round_trip`]).
pub fn callput_price(is_call_price: bool, market_price: i128, dprice: i64, dstrike: i64) -> (r: i128)
    requires
        -1000000000000000000000000 <= market_price <= 1000000000000000000000000,
        0 <= dprice <= AMOUNT_CAP,
        0 <= dstrike <= AMOUNT_CAP,
    ensures
        r == spec_callput_price(is_call_price, market_price as int, dprice as int, dstrike as int),
{
    let gap = wide_product(dprice, SCALE) - wide_product(dstrike, SCALE);
    proof {
        assert(0 <= dprice as int * SCALE as int <= 1000000000000000 * 1000000000
            && 0 <= dstrike as int * SCALE as int <= 1000000000000000 * 1000000000)
            by (nonlinear_arith)
            requires
                0 <= dprice as int <= 1000000000000000,
                0 <= dstrike as int <= 1000000000000000,
        ;
    }
    if is_call_price {
        market_price - gap
    } else {
        market_price + gap
    }
}

/// Converting a market price to the other side and back returns it exactly:
/// the parity converter loses nothing, which is what lets the put-side
/// implied-volatility search reuse the call-side machinery.
pub proof fn lemma_callput_price_round_trip(market_price: int, dprice: int, dstrike: int)
    ensures
        spec_callput_price(
            true,
            spec_callput_price(false, market_price, dprice, dstrike),
            dprice,
            dstrike,
        ) == market_price,
        spec_callput_price(
            false,
            spec_callput_price(true, market_price, dprice, dstrike),
            dprice,
            dstrike,
        ) == market_price,
{
}

/// Sign-parameterized delta: `sign * exp(-div_yield * T) * CDF(sign * d1)`.
pub open spec fn spec_delta(sign: int, ddisc: int, cdf_sd1: int) -> int {
    sign * ddisc * cdf_sd1
}

/// Delta for calls and puts over the dividend discount `exp(-div_yield*T)`
/// and the CDF value at `sign * d1`, `SCALE2` units per whole.
fn generic_delta(is_call: bool, ddisc: i64, cdf_sd1: i64) -> (r: i128)
    requires
        0 <= ddisc <= RATE_CAP,
        0 <= cdf_sd1 <= SCALE,
    ensures
        r == spec_delta(sign_of(is_call), ddisc as int, cdf_sd1 as int),
{
    let x = wide_product(ddisc, cdf_sd1);
    proof {
        assert(0 <= ddisc as int * cdf_sd1 as int <= 100000000000 * 1000000000) by (nonlinear_arith)
            requires
                0 <= ddisc as int <= 100000000000,
                0 <= cdf_sd1 as int <= 1000000000,
        ;
        assert(sign_of(is_call) * (ddisc as int * cdf_sd1 as int) == spec_delta(
            sign_of(is_call),
            ddisc as int,
            cdf_sd1 as int,
        )) by (nonlinear_arith);
    }
    if is_call {
        x
    } else {
        -x
    }
}

/// Delta sensitivity for call options: `cdf_d1` is the CDF value at `d1`.
pub fn call_delta(ddisc: i64, cdf_d1: i64) -> (r: i128)
    requires
        0 <= ddisc <= RATE_CAP,
        0 <= cdf_d1 <= SCALE,
    ensures
        r == spec_delta(1, ddisc as int, cdf_d1 as int),
{
    generic_delta(true, ddisc, cdf_d1)
}

/// Delta sensitivity for put options: `cdf_md1` is the CDF value at `-d1`.
pub fn put_delta(ddisc: i64, cdf_md1: i64) -> (r: i128)
    requires
        0 <= ddisc <= RATE_CAP,
        0 <= cdf_md1 <= SCALE,
    ensures
        r == spec_delta(-1, ddisc as int, cdf_md1 as int),
{
    generic_delta(false, ddisc, cdf_md1)
}

/// Call delta and put delta of one contract differ by exactly the dividend
/// discount factor: with complementary CDF values the identity
/// `call_delta - put_delta == exp(-div_yield*T)` is structural and exact.
pub proof fn lemma_delta_complement(ddisc: int, cdf_d1: int, cdf_md1: int)
    requires
        cdf_d1 + cdf_md1 == SCALE,
    ensures
        spec_delta(1, ddisc, cdf_d1) - spec_delta(-1, ddisc, cdf_md1) == ddisc * SCALE,
{
    assert(1 * ddisc * cdf_d1 - (-1) * ddisc * cdf_md1 == ddisc * (SCALE as int))
        by (nonlinear_arith)
        requires
            cdf_d1 + cdf_md1 == SCALE as int,
    ;
}

/// Premium change for a call option between an original and a perturbed
/// parameter set, both given by their discounted terms: the bumped premium
/// minus the original premium (the finite-difference probe for the greeks).
/// The perturbation itself — deriving the bumped terms — is the caller's.
pub fn simulate_call(
    dprice: i64,
    dstrike: i64,
    cdf_d1: i64,
    cdf_d2: i64,
    bumped_dprice: i64,
    bumped_dstrike: i64,
    bumped_cdf_d1: i64,
    bumped_cdf_d2: i64,
) -> (r: i128)
    requires
        0 <= dprice <= AMOUNT_CAP,
        0 <= dstrike <= AMOUNT_CAP,
        0 <= cdf_d1 <= SCALE,
        0 <= cdf_d2 <= SCALE,
        0 <= bumped_dprice <= AMOUNT_CAP,
        0 <= bumped_dstrike <= AMOUNT_CAP,
        0 <= bumped_cdf_d1 <= SCALE,
        0 <= bumped_cdf_d2 <= SCALE,
    ensures
        r == spec_premium(
            1,
            bumped_dprice as int,
            bumped_dstrike as int,
            bumped_cdf_d1 as int,
            bumped_cdf_d2 as int,
        ) - spec_premium(1, dprice as int, dstrike as int, cdf_d1 as int, cdf_d2 as int),
{
    let original = call_premium(dprice, dstrike, cdf_d1, cdf_d2);
    let bumped = call_premium(bumped_dprice, bumped_dstrike, bumped_cdf_d1, bumped_cdf_d2);
    proof {
        lemma_premium_bound(1, dprice as int, dstrike as int, cdf_d1 as int, cdf_d2 as int);
        lemma_premium_bound(
            1,
            bumped_dprice as int,
            bumped_dstrike as int,
            bumped_cdf_d1 as int,
            bumped_cdf_d2 as int,
        );
    }
    bumped - original
}

/// Same as [`simulate_call`] but for put options; the CDF inputs are taken
/// at `-d1` and `-d2`.
pub fn simulate_put(
    dprice: i64,
    dstrike: i64,
    cdf_md1: i64,
    cdf_md2: i64,
    bumped_dprice: i64,
    bumped_dstrike: i64,
    bumped_cdf_md1: i64,
    bumped_cdf_md2: i64,
) -> (r: i128)
    requires
        0 <= dprice <= AMOUNT_CAP,
        0 <= dstrike <= AMOUNT_CAP,
        0 <= cdf_md1 <= SCALE,
        0 <= cdf_md2 <= SCALE,
        0 <= bumped_dprice <= AMOUNT_CAP,
        0 <= bumped_dstrike <= AMOUNT_CAP,
        0 <= bumped_cdf_md1 <= SCALE,
        0 <= bumped_cdf_md2 <= SCALE,
    ensures
        r == spec_premium(
            -1,
            bumped_dprice as int,
            bumped_dstrike as int,
            bumped_cdf_md1 as int,
            bumped_cdf_md2 as int,
        ) - spec_premium(-1, dprice as int, dstrike as int, cdf_md1 as int, cdf_md2 as int),
{
    let original = put_premium(dprice, dstrike, cdf_md1, cdf_md2);
    let bumped = put_premium(bumped_dprice, bumped_dstrike, bumped_cdf_md1, bumped_cdf_md2);
    proof {
        lemma_premium_bound(-1, dprice as int, dstrike as int, cdf_md1 as int, cdf_md2 as int);
        lemma_premium_bound(
            -1,
            bumped_dprice as int,
            bumped_dstrike as int,
            bumped_cdf_md1 as int,
            bumped_cdf_md2 as int,
        );
    }
    bumped - original
}

/// A premium over capped inputs stays within one unit-squared of the money
/// cap, so differences of premiums cannot overflow.
proof fn lemma_premium_bound(sign: int, dprice: int, dstrike: int, cdf_sd1: int, cdf_sd2: int)
    requires
        sign == 1 || sign == -1,
        0 <= dprice <= AMOUNT_CAP,
        0 <= dstrike <= AMOUNT_CAP,
        0 <= cdf_sd1 <= SCALE,
        0 <= cdf_sd2 <= SCALE,
    ensures
        -(1000000000000000 * 1000000000) <= spec_premium(sign, dprice, dstrike, cdf_sd1, cdf_sd2)
            <= 1000000000000000 * 1000000000,
{
    assert(0 <= dprice * cdf_sd1 <= 1000000000000000 * 1000000000 && 0 <= dstrike * cdf_sd2
        <= 1000000000000000 * 1000000000) by (nonlinear_arith)
        requires
            0 <= dprice <= 1000000000000000,
            0 <= dstrike <= 1000000000000000,
            0 <= cdf_sd1 <= 1000000000,
            0 <= cdf_sd2 <= 1000000000,
    ;
    assert(sign * (dprice * cdf_sd1 - dstrike * cdf_sd2) == spec_premium(
        sign,
        dprice,
        dstrike,
        cdf_sd1,
        cdf_sd2,
    ));
    assert(-(1000000000000000 * 1000000000) <= sign * (dprice * cdf_sd1 - dstrike * cdf_sd2)
        <= 1000000000000000 * 1000000000) by (nonlinear_arith)
        requires
            sign == 1 || sign == -1,
            0 <= dprice * cdf_sd1 <= 1000000000000000 * 1000000000,
            0 <= dstrike * cdf_sd2 <= 1000000000000000 * 1000000000,
    ;
}

/// Product of two wide values whose result is known to fit.
fn product_i128(a: i128, b: i128) -> (r: i128)
    requires
        -0x7fff_ffff_ffff_ffff_ffff_ffff_ffff_ffff <= a as int * b as int
            <= 0x7fff_ffff_ffff_ffff_ffff_ffff_ffff_ffff,
    ensures
        r == a as int * b as int,
{
    a * b
}

/// Quotient of wide values, truncating toward zero.
fn quotient_i128(a: i128, b: i128) -> (r: i128)
    requires
        b > 0,
    ensures
        r == tdiv(a as int, b as int),
{
    a / b
}

/// Drops one scale factor: divides by `SCALE`, truncating toward zero.
fn drop_scale(x: i128) -> (r: i128)
    ensures
        r == tdiv(x as int, SCALE as int),
{
    x / (SCALE as i128)
}

/// Bounds for a truncating division with a nonnegative numerator.
proof fn lemma_tdiv_nonneg_bounds(a: int, b: int, cap: int)
    requires
        0 <= a <= cap,
        0 < b,
    ensures
        0 <= tdiv(a, b) <= cap / b,
{
    lemma_div_pos_is_pos(a, b);
    lemma_div_is_ordered(a, cap, b);
}

/// A truncating division never grows in magnitude (for divisors of at least one).
proof fn lemma_tdiv_abs_le(a: int, b: int)
    requires
        1 <= b,
    ensures
        a >= 0 ==> 0 <= tdiv(a, b) <= a,
        a < 0 ==> a <= tdiv(a, b) <= 0,
{
    if a >= 0 {
        lemma_div_pos_is_pos(a, b);
        lemma_div_nonincreasing(a, b);
    } else {
        lemma_div_pos_is_pos(-a, b);
        lemma_div_nonincreasing(-a, b);
    }
}

/// The Black-Scholes derivative with respect to volatility (the unscaled
/// vega used by the root-finder): `price * exp(-div_yield*T) * PDF(d1) *
/// sqrt(T)`, evaluated as the exact product of the rescaled discounted
/// spot and the rescaled density mass.
pub open spec fn spec_dtv_dvol(price: int, ddisc: int, pdf_d1: int, sqrt_t: int) -> int {
    tdiv(price * ddisc, SCALE as int) * tdiv(pdf_d1 * sqrt_t, SCALE as int)
}

/// Unscaled vega: `ddisc` is `exp(-div_yield*T)`, `pdf_d1` the
/// standard-normal density at `d1`.  Result in `SCALE2` units per whole.
pub fn dtv_dvol(price: i64, ddisc: i64, pdf_d1: i64, sqrt_t: i64) -> (r: i128)
    requires
        0 <= price <= AMOUNT_CAP,
        0 <= ddisc <= RATE_CAP,
        0 <= pdf_d1 <= RATE_CAP,
        0 <= sqrt_t <= RATE_CAP,
    ensures
        r == spec_dtv_dvol(price as int, ddisc as int, pdf_d1 as int, sqrt_t as int),
{
    let spot = drop_scale(wide_product(price, ddisc));
    let mass = drop_scale(wide_product(pdf_d1, sqrt_t));
    proof {
        assert(0 <= price as int * ddisc as int <= 1000000000000000 * 100000000000 && 0 <= pdf_d1
            as int * sqrt_t as int <= 100000000000 * 100000000000) by (nonlinear_arith)
            requires
                0 <= price as int <= 1000000000000000,
                0 <= ddisc as int <= 100000000000,
                0 <= pdf_d1 as int <= 100000000000,
                0 <= sqrt_t as int <= 100000000000,
        ;
        lemma_tdiv_nonneg_bounds(price as int * ddisc as int, SCALE as int, 1000000000000000int * 100000000000);
        lemma_tdiv_nonneg_bounds(pdf_d1 as int * sqrt_t as int, SCALE as int, 100000000000int * 100000000000);
        assert(0 <= spot as int * mass as int <= 100000000000000000 * 10000000000000)
            by (nonlinear_arith)
            requires
                0 <= spot as int <= 100000000000000000,
                0 <= mass as int <= 10000000000000,
        ;
    }
    product_i128(spot, mass)
}

/// Vega reported per one-percentage-point volatility change: exactly one
/// hundredth (truncated) of the unscaled derivative [`dtv_dvol`].
pub fn vega(price: i64, ddisc: i64, pdf_d1: i64, sqrt_t: i64) -> (r: i128)
    requires
        0 <= price <= AMOUNT_CAP,
        0 <= ddisc <= RATE_CAP,
        0 <= pdf_d1 <= RATE_CAP,
        0 <= sqrt_t <= RATE_CAP,
    ensures
        r == tdiv(spec_dtv_dvol(price as int, ddisc as int, pdf_d1 as int, sqrt_t as int), 100),
{
    let d = dtv_dvol(price, ddisc, pdf_d1, sqrt_t);
    quotient_i128(d, 100)
}

/// The Black-Scholes derivative with respect to the interest rate:
/// `sign * dstrike * T * CDF(sign*d2)` over the discounted strike.
pub open spec fn spec_dtv_drate(sign: int, dstrike: int, time_to_expiry: int, cdf_sd2: int) -> int {
    sign * (tdiv(dstrike * time_to_expiry, SCALE as int) * cdf_sd2)
}

/// Rate sensitivity (unscaled rho), sign-parameterized over call and put.
/// `cdf_sd2` is the CDF value at `sign * d2`.  Result in `SCALE2` units.
pub fn dtv_drate(is_call: bool, dstrike: i64, time_to_expiry: i64, cdf_sd2: i64) -> (r: i128)
    requires
        0 <= dstrike <= AMOUNT_CAP,
        0 <= time_to_expiry <= RATE_CAP,
        0 <= cdf_sd2 <= SCALE,
    ensures
        r == spec_dtv_drate(sign_of(is_call), dstrike as int, time_to_expiry as int, cdf_sd2 as int),
{
    let base = drop_scale(wide_product(dstrike, time_to_expiry));
    proof {
        assert(0 <= dstrike as int * time_to_expiry as int <= 1000000000000000 * 100000000000)
            by (nonlinear_arith)
            requires
                0 <= dstrike as int <= 1000000000000000,
                0 <= time_to_expiry as int <= 100000000000,
        ;
        lemma_tdiv_nonneg_bounds(
            dstrike as int * time_to_expiry as int,
            SCALE as int,
            1000000000000000int * 100000000000,
        );
        assert(0 <= base as int * cdf_sd2 as int <= 100000000000000000 * 1000000000)
            by (nonlinear_arith)
            requires
                0 <= base as int <= 100000000000000000,
                0 <= cdf_sd2 as int <= 1000000000,
        ;
    }
    let x = product_i128(base, cdf_sd2 as i128);
    if is_call {
        x
    } else {
        -x
    }
}

/// Rho reported per one-percentage-point rate change: one hundredth
/// (truncated) of the unscaled derivative, call side.
pub fn call_rho(dstrike: i64, time_to_expiry: i64, cdf_d2: i64) -> (r: i128)
    requires
        0 <= dstrike <= AMOUNT_CAP,
        0 <= time_to_expiry <= RATE_CAP,
        0 <= cdf_d2 <= SCALE,
    ensures
        r == tdiv(spec_dtv_drate(1, dstrike as int, time_to_expiry as int, cdf_d2 as int), 100),
{
    let d = dtv_drate(true, dstrike, time_to_expiry, cdf_d2);
    quotient_i128(d, 100)
}

/// Rho for the put side: `cdf_md2` is the CDF value at `-d2`.
pub fn put_rho(dstrike: i64, time_to_expiry: i64, cdf_md2: i64) -> (r: i128)
    requires
        0 <= dstrike <= AMOUNT_CAP,
        0 <= time_to_expiry <= RATE_CAP,
        0 <= cdf_md2 <= SCALE,
    ensures
        r == tdiv(spec_dtv_drate(-1, dstrike as int, time_to_expiry as int, cdf_md2 as int), 100),
{
    let d = dtv_drate(false, dstrike, time_to_expiry, cdf_md2);
    quotient_i128(d, 100)
}

/// The Black-Scholes derivative with respect to the dividend yield:
/// `-sign * T * dprice * CDF(sign*d1)` over the discounted spot.
pub open spec fn spec_dtv_ddiv(sign: int, dprice: int, time_to_expiry: int, cdf_sd1: int) -> int {
    -sign * (tdiv(dprice * time_to_expiry, SCALE as int) * cdf_sd1)
}

/// Dividend-yield sensitivity (unscaled phi), sign-parameterized.
/// `cdf_sd1` is the CDF value at `sign * d1`.  Result in `SCALE2` units.
pub fn dtv_ddiv(is_call: bool, dprice: i64, time_to_expiry: i64, cdf_sd1: i64) -> (r: i128)
    requires
        0 <= dprice <= AMOUNT_CAP,
        0 <= time_to_expiry <= RATE_CAP,
        0 <= cdf_sd1 <= SCALE,
    ensures
        r == spec_dtv_ddiv(sign_of(is_call), dprice as int, time_to_expiry as int, cdf_sd1 as int),
{
    let base = drop_scale(wide_product(dprice, time_to_expiry));
    proof {
        assert(0 <= dprice as int * time_to_expiry as int <= 1000000000000000 * 100000000000)
            by (nonlinear_arith)
            requires
                0 <= dprice as int <= 1000000000000000,
                0 <= time_to_expiry as int <= 100000000000,
        ;
        lemma_tdiv_nonneg_bounds(
            dprice as int * time_to_expiry as int,
            SCALE as int,
            1000000000000000int * 100000000000,
        );
        assert(0 <= base as int * cdf_sd1 as int <= 100000000000000000 * 1000000000)
            by (nonlinear_arith)
            requires
                0 <= base as int <= 100000000000000000,
                0 <= cdf_sd1 as int <= 1000000000,
        ;
    }
    let x = product_i128(base, cdf_sd1 as i128);
    proof {
        let q = (base as int) * (cdf_sd1 as int);
        assert(x as int == q);
        assert((-1) * q == -q && -((-1) as int) * q == q) by (nonlinear_arith);
    }
    if is_call {
        -x
    } else {
        x
    }
}

/// Phi reported per one-percentage-point yield change, call side:
/// `cdf_d1` is the CDF value at `d1`.
pub fn call_phi(dprice: i64, time_to_expiry: i64, cdf_d1: i64) -> (r: i128)
    requires
        0 <= dprice <= AMOUNT_CAP,
        0 <= time_to_expiry <= RATE_CAP,
        0 <= cdf_d1 <= SCALE,
    ensures
        r == tdiv(spec_dtv_ddiv(1, dprice as int, time_to_expiry as int, cdf_d1 as int), 100),
{
    let d = dtv_ddiv(true, dprice, time_to_expiry, cdf_d1);
    quotient_i128(d, 100)
}

/// Phi for the put side: `cdf_md1` is the CDF value at `-d1`.
pub fn put_phi(dprice: i64, time_to_expiry: i64, cdf_md1: i64) -> (r: i128)
    requires
        0 <= dprice <= AMOUNT_CAP,
        0 <= time_to_expiry <= RATE_CAP,
        0 <= cdf_md1 <= SCALE,
    ensures
        r == tdiv(spec_dtv_ddiv(-1, dprice as int, time_to_expiry as int, cdf_md1 as int), 100),
{
    let d = dtv_ddiv(false, dprice, time_to_expiry, cdf_md1);
    quotient_i128(d, 100)
}

/// The decay ratio of the theta formula: `vol / (2 * sqrt(T))` as a
/// truncating division in `SCALE` units.
pub open spec fn spec_theta_decay(vol: int, sqrt_t: int) -> int {
    tdiv(vol * SCALE, 2 * sqrt_t)
}

/// Sign-parameterized theta: `sign*div_yield*dprice*CDF(sign*d1)
/// - sign*rate*dstrike*CDF(sign*d2) - dprice*(vol/(2*sqrt(T)))*PDF(d1)`,
/// with the stated truncating rescales.
pub open spec fn spec_theta(
    sign: int,
    div_yield: int,
    rate: int,
    dprice: int,
    dstrike: int,
    cdf_sd1: int,
    cdf_sd2: int,
    pdf_d1: int,
    vol: int,
    sqrt_t: int,
) -> int {
    sign * (div_yield * tdiv(dprice * cdf_sd1, SCALE as int)) - sign * (rate * tdiv(
        dstrike * cdf_sd2,
        SCALE as int,
    )) - tdiv(dprice * pdf_d1, SCALE as int) * spec_theta_decay(vol, sqrt_t)
}

/// Generic theta over the discounted terms, CDF and PDF values; shared by
/// the call and the put side.  Result in `SCALE2` units per whole.
fn generic_theta(
    is_call: bool,
    div_yield: i64,
    rate: i64,
    dprice: i64,
    dstrike: i64,
    cdf_sd1: i64,
    cdf_sd2: i64,
    pdf_d1: i64,
    vol: i64,
    sqrt_t: i64,
) -> (r: i128)
    requires
        -RATE_CAP <= div_yield <= RATE_CAP,
        -RATE_CAP <= rate <= RATE_CAP,
        0 <= dprice <= AMOUNT_CAP,
        0 <= dstrike <= AMOUNT_CAP,
        0 <= cdf_sd1 <= SCALE,
        0 <= cdf_sd2 <= SCALE,
        0 <= pdf_d1 <= RATE_CAP,
        0 < vol <= RATE_CAP,
        0 < sqrt_t <= RATE_CAP,
        spec_theta_decay(vol as int, sqrt_t as int) <= RATE_CAP,
    ensures
        r == spec_theta(
            sign_of(is_call),
            div_yield as int,
            rate as int,
            dprice as int,
            dstrike as int,
            cdf_sd1 as int,
            cdf_sd2 as int,
            pdf_d1 as int,
            vol as int,
            sqrt_t as int,
        ),
{
    let carry1 = drop_scale(wide_product(dprice, cdf_sd1));
    let carry2 = drop_scale(wide_product(dstrike, cdf_sd2));
    proof {
        assert(0 <= dprice as int * cdf_sd1 as int <= 1000000000000000int * 1000000000 && 0
            <= dstrike as int * cdf_sd2 as int <= 1000000000000000int * 1000000000)
            by (nonlinear_arith)
            requires
                0 <= dprice as int <= 1000000000000000,
                0 <= dstrike as int <= 1000000000000000,
                0 <= cdf_sd1 as int <= 1000000000,
                0 <= cdf_sd2 as int <= 1000000000,
        ;
        lemma_tdiv_nonneg_bounds(
            dprice as int * cdf_sd1 as int,
            SCALE as int,
            1000000000000000int * 1000000000,
        );
        lemma_tdiv_nonneg_bounds(
            dstrike as int * cdf_sd2 as int,
            SCALE as int,
            1000000000000000int * 1000000000,
        );
        assert(-(100000000000int * 1000000000000000) <= div_yield as int * (carry1 as int)
            <= 100000000000int * 1000000000000000 && -(100000000000int * 1000000000000000)
            <= rate as int * (carry2 as int) <= 100000000000int * 1000000000000000)
            by (nonlinear_arith)
            requires
                -100000000000 <= div_yield as int <= 100000000000,
                -100000000000 <= rate as int <= 100000000000,
                0 <= carry1 as int <= 1000000000000000,
                0 <= carry2 as int <= 1000000000000000,
        ;
    }
    let t1 = product_i128(div_yield as i128, carry1);
    let t2 = product_i128(rate as i128, carry2);
    let vs = wide_product(vol, SCALE);
    proof {
        assert(0 <= vol as int * SCALE as int <= 100000000000int * 1000000000)
            by (nonlinear_arith)
            requires
                0 <= vol as int <= 100000000000,
        ;
        lemma_tdiv_nonneg_bounds(vol as int * SCALE as int, 2 * (sqrt_t as int), 100000000000int * 1000000000);
    }
    let ratio = quotient_i128(vs, 2 * (sqrt_t as i128));
    let m1 = drop_scale(wide_product(dprice, pdf_d1));
    proof {
        assert(0 <= dprice as int * pdf_d1 as int <= 1000000000000000int * 100000000000)
            by (nonlinear_arith)
            requires
                0 <= dprice as int <= 1000000000000000,
                0 <= pdf_d1 as int <= 100000000000,
        ;
        lemma_tdiv_nonneg_bounds(
            dprice as int * pdf_d1 as int,
            SCALE as int,
            1000000000000000int * 100000000000,
        );
        assert(0 <= m1 as int * (ratio as int) <= 100000000000000000int * 100000000000)
            by (nonlinear_arith)
            requires
                0 <= m1 as int <= 100000000000000000,
                0 <= ratio as int <= 100000000000,
        ;
    }
    let t3 = product_i128(m1, ratio);
    proof {
        let a = (div_yield as int) * (carry1 as int);
        let b = (rate as int) * (carry2 as int);
        assert(t1 as int == a && t2 as int == b);
        assert(1 * a == a && (-1) * a == -a && 1 * b == b && (-1) * b == -b) by (nonlinear_arith);
    }
    if is_call {
        t1 - t2 - t3
    } else {
        -t1 + t2 - t3
    }
}

/// Theta sensitivity for call options: `cdf_d1`, `cdf_d2` and `pdf_d1` are
/// taken at `d1` and `d2` themselves.
pub fn call_theta(
    div_yield: i64,
    rate: i64,
    dprice: i64,
    dstrike: i64,
    cdf_d1: i64,
    cdf_d2: i64,
    pdf_d1: i64,
    vol: i64,
    sqrt_t: i64,
) -> (r: i128)
    requires
        -RATE_CAP <= div_yield <= RATE_CAP,
        -RATE_CAP <= rate <= RATE_CAP,
        0 <= dprice <= AMOUNT_CAP,
        0 <= dstrike <= AMOUNT_CAP,
        0 <= cdf_d1 <= SCALE,
        0 <= cdf_d2 <= SCALE,
        0 <= pdf_d1 <= RATE_CAP,
        0 < vol <= RATE_CAP,
        0 < sqrt_t <= RATE_CAP,
        spec_theta_decay(vol as int, sqrt_t as int) <= RATE_CAP,
    ensures
        r == spec_theta(
            1,
            div_yield as int,
            rate as int,
            dprice as int,
            dstrike as int,
            cdf_d1 as int,
            cdf_d2 as int,
            pdf_d1 as int,
            vol as int,
            sqrt_t as int,
        ),
{
    generic_theta(true, div_yield, rate, dprice, dstrike, cdf_d1, cdf_d2, pdf_d1, vol, sqrt_t)
}

/// Theta sensitivity for put options: the CDF values are taken at `-d1`
/// and `-d2`, the density still at `d1`.
pub fn put_theta(
    div_yield: i64,
    rate: i64,
    dprice: i64,
    dstrike: i64,
    cdf_md1: i64,
    cdf_md2: i64,
    pdf_d1: i64,
    vol: i64,
    sqrt_t: i64,
) -> (r: i128)
    requires
        -RATE_CAP <= div_yield <= RATE_CAP,
        -RATE_CAP <= rate <= RATE_CAP,
        0 <= dprice <= AMOUNT_CAP,
        0 <= dstrike <= AMOUNT_CAP,
        0 <= cdf_md1 <= SCALE,
        0 <= cdf_md2 <= SCALE,
        0 <= pdf_d1 <= RATE_CAP,
        0 < vol <= RATE_CAP,
        0 < sqrt_t <= RATE_CAP,
        spec_theta_decay(vol as int, sqrt_t as int) <= RATE_CAP,
    ensures
        r == spec_theta(
            -1,
            div_yield as int,
            rate as int,
            dprice as int,
            dstrike as int,
            cdf_md1 as int,
            cdf_md2 as int,
            pdf_d1 as int,
            vol as int,
            sqrt_t as int,
        ),
{
    generic_theta(false, div_yield, rate, dprice, dstrike, cdf_md1, cdf_md2, pdf_d1, vol, sqrt_t)
}

/// Gamma, the same for calls and puts: `exp(-div_yield*T) * PDF(d1) /
/// (price * vol * sqrt(T))`, as the stated truncating divisions.
pub open spec fn spec_gamma(price: int, ddisc: int, pdf_d1: int, vol: int, sqrt_t: int) -> int {
    tdiv(
        tdiv(ddisc * pdf_d1, SCALE as int) * SCALE * SCALE,
        tdiv(tdiv(price * vol, SCALE as int) * sqrt_t, SCALE as int),
    )
}

/// Gamma sensitivity over the dividend discount, the density at `d1` and
/// the raw spot, volatility and root-time.  Takes no call/put sign: the
/// formula is the same for both sides.  Result in `SCALE2` units per whole.
pub fn gamma(price: i64, ddisc: i64, pdf_d1: i64, vol: i64, sqrt_t: i64) -> (r: i128)
    requires
        0 < price <= AMOUNT_CAP,
        0 <= ddisc <= RATE_CAP,
        0 <= pdf_d1 <= RATE_CAP,
        0 < vol <= RATE_CAP,
        0 < sqrt_t <= RATE_CAP,
        tdiv(tdiv(price as int * vol as int, SCALE as int) * sqrt_t as int, SCALE as int) >= 1,
    ensures
        r == spec_gamma(price as int, ddisc as int, pdf_d1 as int, vol as int, sqrt_t as int),
{
    let numer = drop_scale(wide_product(ddisc, pdf_d1));
    proof {
        assert(0 <= ddisc as int * pdf_d1 as int <= 100000000000int * 100000000000)
            by (nonlinear_arith)
            requires
                0 <= ddisc as int <= 100000000000,
                0 <= pdf_d1 as int <= 100000000000,
        ;
        lemma_tdiv_nonneg_bounds(
            ddisc as int * pdf_d1 as int,
            SCALE as int,
            100000000000int * 100000000000,
        );
        assert(0 <= numer as int * SCALE as int <= 10000000000000int * 1000000000)
            by (nonlinear_arith)
            requires
                0 <= numer as int <= 10000000000000,
        ;
    }
    let lifted = product_i128(numer, SCALE as i128);
    proof {
        assert(0 <= lifted as int * SCALE as int <= 10000000000000000000000int * 1000000000)
            by (nonlinear_arith)
            requires
                0 <= lifted as int <= 10000000000000000000000,
        ;
    }
    let lifted2 = product_i128(lifted, SCALE as i128);
    let pv = drop_scale(wide_product(price, vol));
    proof {
        assert(0 <= price as int * vol as int <= 1000000000000000int * 100000000000)
            by (nonlinear_arith)
            requires
                0 <= price as int <= 1000000000000000,
                0 <= vol as int <= 100000000000,
        ;
        lemma_tdiv_nonneg_bounds(
            price as int * vol as int,
            SCALE as int,
            1000000000000000int * 100000000000,
        );
        assert(0 <= pv as int * sqrt_t as int <= 100000000000000000int * 100000000000)
            by (nonlinear_arith)
            requires
                0 <= pv as int <= 100000000000000000,
                0 <= sqrt_t as int <= 100000000000,
        ;
        lemma_tdiv_nonneg_bounds(
            pv as int * sqrt_t as int,
            SCALE as int,
            100000000000000000int * 100000000000,
        );
    }
    let denom = drop_scale(product_i128(pv, sqrt_t as i128));
    quotient_i128(lifted2, denom)
}

/// The root-finder's derivative is strictly positive wherever the
/// discounted spot and the density mass are each at least one whole: the
/// premium is then locally increasing in volatility, which is what makes
/// the Newton-Raphson update well-posed away from negligible density.
pub proof fn lemma_vega_derivative_positive(price: int, ddisc: int, pdf_d1: int, sqrt_t: int)
    requires
        price * ddisc >= SCALE * SCALE,
        pdf_d1 * sqrt_t >= SCALE * SCALE,
    ensures
        spec_dtv_dvol(price, ddisc, pdf_d1, sqrt_t) >= SCALE * SCALE,
{
    lemma_div_multiples_vanish(SCALE as int, SCALE as int);
    lemma_div_is_ordered(SCALE as int * SCALE as int, price * ddisc, SCALE as int);
    lemma_div_is_ordered(SCALE as int * SCALE as int, pdf_d1 * sqrt_t, SCALE as int);
    let spot = tdiv(price * ddisc, SCALE as int);
    let mass = tdiv(pdf_d1 * sqrt_t, SCALE as int);
    assert(spot * mass >= SCALE as int * SCALE as int) by (nonlinear_arith)
        requires
            spot >= SCALE as int,
            mass >= SCALE as int,
            SCALE as int > 0,
    ;
}

/// The call premium is strictly increasing in the probability mass at
/// `d1` whenever the discounted spot is at least one fixed-point unit —
/// the structural kernel of the premium's monotonicity in volatility that
/// the root-finder relies on.
pub proof fn lemma_premium_monotone_in_cdf_d1(
    dprice: int,
    dstrike: int,
    lo: int,
    hi: int,
    cdf_d2: int,
)
    requires
        dprice >= 1,
        lo < hi,
    ensures
        spec_premium(1, dprice, dstrike, lo, cdf_d2) < spec_premium(1, dprice, dstrike, hi, cdf_d2),
{
    assert(dprice * lo < dprice * hi) by (nonlinear_arith)
        requires
            dprice >= 1,
            lo < hi,
    ;
}

/// Parameters of a European option under the Black-Scholes model, in
/// `SCALE` units per whole.  The well-formedness invariant is the data
/// model's constraint: spot, strike, volatility and time to expiry are
/// strictly positive (rate and dividend yield may be negative), and all
/// fields respect the fixed-point caps.
#[derive(Clone, Copy, Debug)]
pub struct BlackScholesParams {
    /// spot price of the option's underlying asset
    pub price: i64,
    /// annual dividend yield (continuously compounded, decimal)
    pub div_yield: i64,
    /// option strike
    pub strike: i64,
    /// annualized volatility (decimal)
    pub vol: i64,
    /// risk-free rate (continuously compounded, decimal)
    pub rate: i64,
    /// time to expiry in years (decimal)
    pub time_to_expiry: i64,
}

impl BlackScholesParams {
    /// The data-model invariant on a parameter set.
    pub open spec fn wf(self) -> bool {
        &&& 0 < self.price <= AMOUNT_CAP
        &&& 0 < self.strike <= AMOUNT_CAP
        &&& 0 < self.vol <= RATE_CAP
        &&& 0 < self.time_to_expiry <= RATE_CAP
        &&& -RATE_CAP <= self.rate <= RATE_CAP
        &&& -RATE_CAP <= self.div_yield <= RATE_CAP
    }
}

/// The `d1` primitive: `[ln(price/strike) + (rate - div_yield + vol^2/2) * T]
/// / (vol * sqrt(T))`, over the caller-supplied log-moneyness and root-time,
/// as one truncating division of exact products.  Result in `SCALE` units.
pub open spec fn spec_d1(p: BlackScholesParams, log_moneyness: int, sqrt_t: int) -> int {
    tdiv(
        log_moneyness * SCALE * SCALE + (p.rate * SCALE - p.div_yield * SCALE + tdiv(
            p.vol * p.vol,
            2,
        )) * p.time_to_expiry,
        p.vol * sqrt_t,
    )
}

/// The `d1` sub-formula of Black-Scholes.  `log_moneyness` is
/// `ln(price/strike)` and `sqrt_t` is `sqrt(T)`, both in `SCALE` units; the
/// division by `vol * sqrt(T)` requires that product to be at least one
/// millionth, the fixed-point stand-in for the data model's demand that it
/// not be zero.
pub fn d1(p: &BlackScholesParams, log_moneyness: i64, sqrt_t: i64) -> (r: i128)
    requires
        p.wf(),
        -RATE_CAP <= log_moneyness <= RATE_CAP,
        0 < sqrt_t <= RATE_CAP,
        p.vol as int * sqrt_t as int >= 1_000_000_000_000,
    ensures
        r == spec_d1(*p, log_moneyness as int, sqrt_t as int),
        -1000000000000000000000000000000000000 <= r <= 1000000000000000000000000000000000000,
{
    let vv = wide_product(p.vol, p.vol);
    proof {
        assert(0 <= p.vol as int * p.vol as int <= 100000000000int * 100000000000)
            by (nonlinear_arith)
            requires
                0 <= p.vol as int <= 100000000000,
        ;
        lemma_tdiv_nonneg_bounds(
            p.vol as int * p.vol as int,
            2,
            100000000000int * 100000000000,
        );
    }
    let half_vv = quotient_i128(vv, 2);
    let r18 = wide_product(p.rate, SCALE);
    let q18 = wide_product(p.div_yield, SCALE);
    proof {
        assert(-(100000000000int * 1000000000) <= p.rate as int * SCALE as int <= 100000000000int
            * 1000000000 && -(100000000000int * 1000000000) <= p.div_yield as int * SCALE as int
            <= 100000000000int * 1000000000) by (nonlinear_arith)
            requires
                -100000000000 <= p.rate as int <= 100000000000,
                -100000000000 <= p.div_yield as int <= 100000000000,
        ;
    }
    let drift = r18 - q18 + half_vv;
    proof {
        assert(-(10000000000000000000000int * 100000000000) <= drift as int * p.time_to_expiry
            as int <= 10000000000000000000000int * 100000000000) by (nonlinear_arith)
            requires
                -10000000000000000000000 <= drift as int <= 10000000000000000000000,
                0 < p.time_to_expiry as int <= 100000000000,
        ;
    }
    let dt = product_i128(drift, p.time_to_expiry as i128);
    let lm18 = wide_product(log_moneyness, SCALE);
    proof {
        assert(-(100000000000int * 1000000000 * 1000000000) <= lm18 as int * SCALE as int
            <= 100000000000int * 1000000000 * 1000000000) by (nonlinear_arith)
            requires
                -(100000000000int * 1000000000) <= lm18 as int <= 100000000000int * 1000000000,
        ;
    }
    let lm27 = product_i128(lm18, SCALE as i128);
    let num = lm27 + dt;
    let den = wide_product(p.vol, sqrt_t);
    proof {
        lemma_tdiv_abs_le(num as int, den as int);
    }
    quotient_i128(num, den)
}

/// The `d2` primitive is `d1` less exactly one rescaled `vol * sqrt(T)`:
/// the defining relation `d2 = d1 - vol * sqrt(T)` holds to the last unit.
pub fn d2(p: &BlackScholesParams, log_moneyness: i64, sqrt_t: i64) -> (r: i128)
    requires
        p.wf(),
        -RATE_CAP <= log_moneyness <= RATE_CAP,
        0 < sqrt_t <= RATE_CAP,
        p.vol as int * sqrt_t as int >= 1_000_000_000_000,
    ensures
        r == spec_d1(*p, log_moneyness as int, sqrt_t as int) - tdiv(
            p.vol as int * sqrt_t as int,
            SCALE as int,
        ),
{
    let a = d1(p, log_moneyness, sqrt_t);
    let vs9 = drop_scale(wide_product(p.vol, sqrt_t));
    proof {
        assert(0 <= p.vol as int * sqrt_t as int <= 100000000000int * 100000000000)
            by (nonlinear_arith)
            requires
                0 <= p.vol as int <= 100000000000,
                0 <= sqrt_t as int <= 100000000000,
        ;
        lemma_tdiv_nonneg_bounds(
            p.vol as int * sqrt_t as int,
            SCALE as int,
            100000000000int * 100000000000,
        );
    }
    a - vs9
}

/// The midpoint-adjusted market price of the Corrado-Miller seed:
/// `market_price - (dprice - dstrike) / 2`, exactly.
pub fn approx_vol_mid_diff(market_price: i128, dprice: i64, dstrike: i64) -> (r: i128)
    requires
        -1000000000000000000000000 <= market_price <= 1000000000000000000000000,
        0 <= dprice <= AMOUNT_CAP,
        0 <= dstrike <= AMOUNT_CAP,
    ensures
        r == market_price - tdiv((dprice as int - dstrike as int) * SCALE, 2),
{
    let gap = wide_product(dprice, SCALE) - wide_product(dstrike, SCALE);
    proof {
        assert(0 <= dprice as int * SCALE as int <= 1000000000000000int * 1000000000 && 0
            <= dstrike as int * SCALE as int <= 1000000000000000int * 1000000000
            && (dprice as int - dstrike as int) * SCALE as int == dprice as int * SCALE as int
            - dstrike as int * SCALE as int) by (nonlinear_arith)
            requires
                0 <= dprice as int <= 1000000000000000,
                0 <= dstrike as int <= 1000000000000000,
        ;
        lemma_tdiv_abs_le((dprice as int - dstrike as int) * SCALE as int, 2);
    }
    let half = quotient_i128(gap, 2);
    market_price - half
}

/// The clamped discriminant of the Corrado-Miller seed.  The analytic
/// expression `mdiff^2 - psdiff^2/pi` can fall below zero for
/// near-arbitrage market prices; the documented policy is to clamp it to
/// zero rather than let a square root of a negative number poison the
/// estimate.  The result is never negative.
pub fn approx_vol_under_root(mdiff_sq: i128, psdiff_sq_over_pi: i128) -> (r: i128)
    requires
        -80000000000000000000000000000000000000 <= mdiff_sq <= 80000000000000000000000000000000000000,
        -80000000000000000000000000000000000000 <= psdiff_sq_over_pi <= 80000000000000000000000000000000000000,
    ensures
        mdiff_sq - psdiff_sq_over_pi > 0 ==> r == mdiff_sq - psdiff_sq_over_pi,
        mdiff_sq - psdiff_sq_over_pi <= 0 ==> r == 0,
        r >= 0,
{
    let diff = mdiff_sq - psdiff_sq_over_pi;
    if diff > 0 {
        diff
    } else {
        0
    }
}

} // verus!
