use ivol::pricing::{
    approx_vol_mid_diff, approx_vol_under_root, call_delta, call_phi, call_premium, call_rho,
    call_theta, callput_price, d1, d2, dtv_dvol, gamma, put_delta, put_phi, put_premium,
    simulate_call, simulate_put, vega, BlackScholesParams, SCALE,
};
use ivol::solver::process_impl_vol_result;
use ivol::solver::NewtonControl;
use ivol::solver::ITER;
use rv::dist::Gaussian;
use rv::traits::Cdf;
use rv::traits::ContinuousDistr;

/// Scales a real value to `SCALE` (1e9) fixed-point units.
fn sc(x: f64) -> i64 {
    (x * 1e9).round() as i64
}

/// Reads a premium/greek result back from its 1e18 fixed-point units.
fn un(x: i128) -> f64 {
    (x as f64) / 1e18
}

fn cdf(x: f64) -> f64 {
    let n: Gaussian = Gaussian::standard();
    n.cdf(&x)
}

fn pdf(x: f64) -> f64 {
    let n: Gaussian = Gaussian::standard();
    n.pdf(&x)
}

struct Inputs {
    p: BlackScholesParams,
    log_moneyness: i64,
    sqrt_t: i64,
    dprice: i64,
    dstrike: i64,
    ddisc: i64,
    d1f: f64,
    d2f: f64,
}

fn prepare(price: f64, strike: f64, vol: f64, rate: f64, div_yield: f64, t: f64) -> Inputs {
    let p = BlackScholesParams {
        price: sc(price),
        div_yield: sc(div_yield),
        strike: sc(strike),
        vol: sc(vol),
        rate: sc(rate),
        time_to_expiry: sc(t),
    };
    let log_moneyness = sc((price / strike).ln());
    let sqrt_t = sc(t.sqrt());
    let d1m = d1(&p, log_moneyness, sqrt_t);
    let d2m = d2(&p, log_moneyness, sqrt_t);
    Inputs {
        p,
        log_moneyness,
        sqrt_t,
        dprice: sc(price * (-div_yield * t).exp()),
        dstrike: sc(strike * (-rate * t).exp()),
        ddisc: sc((-div_yield * t).exp()),
        d1f: d1m as f64 / 1e9,
        d2f: d2m as f64 / 1e9,
    }
}

fn model_call(i: &Inputs) -> f64 {
    un(call_premium(i.dprice, i.dstrike, sc(cdf(i.d1f)), sc(cdf(i.d2f))))
}

fn model_put(i: &Inputs) -> f64 {
    un(put_premium(i.dprice, i.dstrike, sc(cdf(-i.d1f)), sc(cdf(-i.d2f))))
}

#[test]
fn test_call_premium() {
    let i = prepare(100.0, 110.0, 0.12, 0.05, 0.0, 1.5);
    assert!((model_call(&i) - 4.95).abs() < 0.01);

    let i = prepare(100.0, 110.0, 0.12, 0.05, 0.01, 1.5);
    assert!((model_call(&i) - 4.27).abs() < 0.01);
}

#[test]
fn test_put_premium() {
    let i = prepare(150.0, 200.0, 0.11, 0.01, 0.1, 1.5);
    assert!((model_put(&i) - 67.92).abs() < 0.01);

    let i = prepare(150.0, 160.0, 0.06, 0.03, 0.1, 0.5);
    assert!((model_put(&i) - 14.95).abs() < 0.01);
}

#[test]
fn test_delta() {
    let i = prepare(1045.0, 1020.0, 0.24, 0.025, 0.06, 0.5);
    let delta = un(call_delta(i.ddisc, sc(cdf(i.d1f))));
    assert!((delta - 0.528).abs() < 0.01);

    // Finite-difference probe: the model's inputs carry nine decimals, so
    // the step is coarser than a float probe would use, and the tolerance
    // proportional to it.
    let bump = 0.01;
    let b = prepare(1045.0 + bump, 1020.0, 0.24, 0.025, 0.06, 0.5);
    let diff = un(simulate_call(
        i.dprice,
        i.dstrike,
        sc(cdf(i.d1f)),
        sc(cdf(i.d2f)),
        b.dprice,
        b.dstrike,
        sc(cdf(b.d1f)),
        sc(cdf(b.d2f)),
    )) / bump;
    assert!((diff - delta).abs() < 0.001);

    let pdelta = un(put_delta(i.ddisc, sc(cdf(-i.d1f))));
    let pdiff = un(simulate_put(
        i.dprice,
        i.dstrike,
        sc(cdf(-i.d1f)),
        sc(cdf(-i.d2f)),
        b.dprice,
        b.dstrike,
        sc(cdf(-b.d1f)),
        sc(cdf(-b.d2f)),
    )) / bump;
    assert!((pdiff - pdelta).abs() < 0.001);
}

#[test]
fn test_gamma() {
    let i = prepare(4801.0, 4900.0, 0.2, 0.02, 0.03, 0.01);
    let g = un(gamma(i.p.price, i.ddisc, sc(pdf(i.d1f)), i.p.vol, i.sqrt_t));
    assert!((g - 0.002).abs() < 0.001);
}

#[test]
fn test_rho() {
    let i = prepare(873.0, 950.0, 0.4, 0.08, 0.01, 1.0);
    let rho = un(call_rho(i.dstrike, i.p.time_to_expiry, sc(cdf(i.d2f))));
    assert!((rho - 3.56567).abs() < 0.001);

    let bump = 0.0001;
    let b = prepare(873.0, 950.0, 0.4, 0.08 + bump, 0.01, 1.0);
    let diff = un(simulate_call(
        i.dprice,
        i.dstrike,
        sc(cdf(i.d1f)),
        sc(cdf(i.d2f)),
        b.dprice,
        b.dstrike,
        sc(cdf(b.d1f)),
        sc(cdf(b.d2f)),
    )) / bump
        / 100.0;
    assert!((diff - rho).abs() < 0.001);
}

#[test]
fn test_vega() {
    let i = prepare(290.0, 250.0, 0.15, 0.03, 0.1, 1.0);
    let v = un(vega(i.p.price, i.ddisc, sc(pdf(i.d1f)), i.sqrt_t));
    // One-sided bound as the reference behavior states it.
    assert!((v - 0.93902) < 0.001);

    let bump = 0.0001;
    let b = prepare(290.0, 250.0, 0.15 + bump, 0.03, 0.1, 1.0);
    let diff = un(simulate_call(
        i.dprice,
        i.dstrike,
        sc(cdf(i.d1f)),
        sc(cdf(i.d2f)),
        b.dprice,
        b.dstrike,
        sc(cdf(b.d1f)),
        sc(cdf(b.d2f)),
    )) / bump
        / 100.0;
    assert!((diff - v).abs() < 0.001);
}

#[test]
fn test_theta() {
    let i = prepare(104.0, 95.0, 0.43, 0.02, 0.03, 1.0);
    let theta = un(call_theta(
        i.p.div_yield,
        i.p.rate,
        i.dprice,
        i.dstrike,
        sc(cdf(i.d1f)),
        sc(cdf(i.d2f)),
        sc(pdf(i.d1f)),
        i.p.vol,
        i.sqrt_t,
    ));
    assert!((theta + 6.908).abs() < 0.001);

    let bump = 0.01;
    let b = prepare(104.0, 95.0, 0.43, 0.02, 0.03, 1.0 - bump);
    let diff = un(simulate_call(
        i.dprice,
        i.dstrike,
        sc(cdf(i.d1f)),
        sc(cdf(i.d2f)),
        b.dprice,
        b.dstrike,
        sc(cdf(b.d1f)),
        sc(cdf(b.d2f)),
    )) / bump;
    assert!((diff - theta).abs() < 0.05);
}

#[test]
fn test_phi() {
    let i = prepare(604.0, 620.0, 0.3, 0.02, 0.07, 1.0);
    let bump = 0.0001;
    let b = prepare(604.0, 620.0, 0.3, 0.02, 0.07 + bump, 1.0);

    let cphi = un(call_phi(i.dprice, i.p.time_to_expiry, sc(cdf(i.d1f))));
    let call_diff = un(simulate_call(
        i.dprice,
        i.dstrike,
        sc(cdf(i.d1f)),
        sc(cdf(i.d2f)),
        b.dprice,
        b.dstrike,
        sc(cdf(b.d1f)),
        sc(cdf(b.d2f)),
    )) / bump
        / 100.0;
    assert!((cphi - call_diff).abs() < 0.001);

    let pphi = un(put_phi(i.dprice, i.p.time_to_expiry, sc(cdf(-i.d1f))));
    let put_diff = un(simulate_put(
        i.dprice,
        i.dstrike,
        sc(cdf(-i.d1f)),
        sc(cdf(-i.d2f)),
        b.dprice,
        b.dstrike,
        sc(cdf(-b.d1f)),
        sc(cdf(-b.d2f)),
    )) / bump
        / 100.0;
    assert!((pphi - put_diff).abs() < 0.001);
}

#[test]
fn test_call_impl_vol() {
    // Round trip: price a call at a known volatility, then recover that
    // volatility from the premium by Newton-Raphson, with every decision
    // made by the verified control machine and every premium and
    // derivative evaluated by the verified model.
    let (price, strike, rate, div_yield, t) = (78.0f64, 70.0f64, 0.04f64, 0.03f64, 1.0f64);
    let known_vol = 0.3f64;
    let target = model_call(&prepare(price, strike, known_vol, rate, div_yield, t));

    // Corrado-Miller seed, as the solver documents it.
    let pi = std::f64::consts::PI;
    let dprice = price * (-div_yield * t).exp();
    let dstrike = strike * (-rate * t).exp();
    let psdiff = dprice - dstrike;
    let mdiff = target - psdiff / 2.0;
    let under_root = mdiff.powi(2) - psdiff.powi(2) / pi;
    let root = if under_root > 0.0 { under_root.sqrt() } else { 0.0 };
    let mut v = (2.0 * pi).sqrt() / (dprice + dstrike) * (mdiff + root) / t.sqrt();

    let mut control = NewtonControl::new(ITER);
    let mut solved = v;
    while control.running() {
        let i = prepare(price, strike, v, rate, div_yield, t);
        let f = model_call(&i) - target;
        let fd = un(dtv_dvol(i.p.price, i.ddisc, sc(pdf(i.d1f)), i.sqrt_t));
        let deviation = f / fd;
        let next = v - deviation;
        control.record_step(deviation.abs() <= 0.0000001);
        if control.converged() {
            solved = next;
            break;
        }
        v = next;
    }
    assert!(control.converged());
    assert!((solved - known_vol).abs() < 0.000001);
}

#[test]
fn test_put_impl_vol() {
    // Round trip on the put side: the put premium is converted to the
    // call-side basis by the parity converter for seeding, and the search
    // itself runs against the put premium.
    let (price, strike, rate, div_yield, t) = (150.0f64, 160.0f64, 0.03f64, 0.1f64, 0.5f64);
    let known_vol = 0.25f64;
    let base = prepare(price, strike, known_vol, rate, div_yield, t);
    let target = model_put(&base);

    let call_target = un(callput_price(
        false,
        (target * 1e18) as i128,
        base.dprice,
        base.dstrike,
    ));
    let pi = std::f64::consts::PI;
    let dprice = price * (-div_yield * t).exp();
    let dstrike = strike * (-rate * t).exp();
    let psdiff = dprice - dstrike;
    let mdiff = call_target - psdiff / 2.0;
    let under_root = mdiff.powi(2) - psdiff.powi(2) / pi;
    let root = if under_root > 0.0 { under_root.sqrt() } else { 0.0 };
    let mut v = (2.0 * pi).sqrt() / (dprice + dstrike) * (mdiff + root) / t.sqrt();

    let mut control = NewtonControl::new(ITER);
    let mut solved = v;
    while control.running() {
        let i = prepare(price, strike, v, rate, div_yield, t);
        let f = model_put(&i) - target;
        let fd = un(dtv_dvol(i.p.price, i.ddisc, sc(pdf(i.d1f)), i.sqrt_t));
        let deviation = f / fd;
        let next = v - deviation;
        control.record_step(deviation.abs() <= 0.0000001);
        if control.converged() {
            solved = next;
            break;
        }
        v = next;
    }
    assert!(control.converged());
    assert!((solved - known_vol).abs() < 0.000001);
}

#[test]
fn fallback_is_finite_for_a_hopeless_target() {
    // An unreachable market price (far below any attainable premium)
    // drives the Newton iteration into the weeds; the search exhausts its
    // budget and the fallback policy still surfaces a finite volatility.
    let (price, strike, rate, div_yield, t) = (100.0f64, 110.0f64, 0.03f64, 0.0f64, 1.0f64);
    let target = -50.0f64;
    let vol_guess = 0.2f64;

    let mut control = NewtonControl::new(ITER);
    let mut v = vol_guess;
    while control.running() {
        let usable = v.is_finite() && v > 0.0 && v < 90.0;
        let deviation = if usable {
            let i = prepare(price, strike, v, rate, div_yield, t);
            let f = model_call(&i) - target;
            let fd = un(dtv_dvol(i.p.price, i.ddisc, sc(pdf(i.d1f)), i.sqrt_t));
            f / fd
        } else {
            f64::NAN
        };
        control.record_step(deviation.abs() <= 0.0000001);
        if control.converged() {
            break;
        }
        v = v - deviation;
    }
    assert!(!control.converged());
    assert_eq!(control.steps_performed(), 60000);

    let out = process_impl_vol_result(Err(v), v.is_normal(), vol_guess);
    let payload = out.unwrap_err();
    assert!(payload.is_finite());
}

#[test]
fn put_call_parity_is_exact() {
    // With complementary CDF masses the model's premiums satisfy
    // call - put == dprice - dstrike to the last fixed-point unit.
    let i = prepare(100.0, 110.0, 0.12, 0.05, 0.02, 1.5);
    let n1 = sc(cdf(i.d1f));
    let n2 = sc(cdf(i.d2f));
    let call = call_premium(i.dprice, i.dstrike, n1, n2);
    let put = put_premium(i.dprice, i.dstrike, SCALE - n1, SCALE - n2);
    let gap = (i.dprice as i128 - i.dstrike as i128) * (SCALE as i128);
    assert_eq!(call - put, gap);
}

#[test]
fn premium_increases_with_volatility() {
    let lo = prepare(100.0, 110.0, 0.12, 0.05, 0.0, 1.5);
    let mid = prepare(100.0, 110.0, 0.20, 0.05, 0.0, 1.5);
    let hi = prepare(100.0, 110.0, 0.35, 0.05, 0.0, 1.5);
    let c_lo = model_call(&lo);
    let c_mid = model_call(&mid);
    let c_hi = model_call(&hi);
    assert!(c_lo < c_mid);
    assert!(c_mid < c_hi);
}

#[test]
fn parity_conversion_round_trips_exactly() {
    let market: i128 = 4_950_000_000_000_000_123;
    let dprice = sc(98.51);
    let dstrike = sc(102.04);
    let to_call = callput_price(false, market, dprice, dstrike);
    let back = callput_price(true, to_call, dprice, dstrike);
    assert_eq!(back, market);
}

#[test]
fn d2_is_d1_less_vol_root_t() {
    let i = prepare(100.0, 110.0, 0.12, 0.05, 0.0, 1.5);
    let a = d1(&i.p, i.log_moneyness, i.sqrt_t);
    let b = d2(&i.p, i.log_moneyness, i.sqrt_t);
    let vs = (i.p.vol as i128) * (i.sqrt_t as i128) / 1_000_000_000;
    assert_eq!(b, a - vs);
}

#[test]
fn mid_diff_is_exact() {
    let r = approx_vol_mid_diff(10_000_000_000_000_000_000, sc(6.0), sc(2.0));
    // 10 - (6 - 2)/2 == 8 wholes.
    assert_eq!(r, 8_000_000_000_000_000_000);
}

#[test]
fn under_root_keeps_a_positive_discriminant() {
    assert_eq!(approx_vol_under_root(500, 200), 300);
}

#[test]
fn under_root_clamps_a_negative_discriminant() {
    assert_eq!(approx_vol_under_root(200, 500), 0);
    assert_eq!(approx_vol_under_root(200, 200), 0);
}
