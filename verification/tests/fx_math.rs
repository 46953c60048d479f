use granular_delay::fx::cos_two_pi;
use granular_delay::fx::fx_clamp;
use granular_delay::fx::fx_div;
use granular_delay::fx::fx_mul;
use granular_delay::fx::pow07;
use granular_delay::fx::sin_two_pi;
use granular_delay::fx::sqrt_fx;
use granular_delay::fx::FX_HALF;
use granular_delay::fx::FX_ONE;
use granular_delay::fx::FX_QUARTER;
use granular_delay::grain::pitch_ratio;
use granular_delay::grain::semi_ratio;

const TOL: i64 = FX_ONE / 1000;

fn close(a: i64, b: i64, tol: i64) -> bool {
    (a - b).abs() <= tol
}

#[test]
fn mul_is_exact_on_simple_values() {
    assert_eq!(fx_mul(FX_ONE, FX_ONE), FX_ONE);
    assert_eq!(fx_mul(FX_HALF, FX_HALF), FX_QUARTER);
    assert_eq!(fx_mul(-FX_HALF, FX_HALF), -FX_QUARTER);
    assert_eq!(fx_mul(123456789, 0), 0);
    assert_eq!(fx_mul(0, -987654321), 0);
    // rounding is toward zero on both signs
    assert_eq!(fx_mul(3, 3), 0);
    assert_eq!(fx_mul(-3, 3), 0);
}

#[test]
fn div_is_exact_on_simple_values() {
    assert_eq!(fx_div(FX_ONE, FX_ONE), FX_ONE);
    assert_eq!(fx_div(FX_ONE, 2 * FX_ONE), FX_HALF);
    assert_eq!(fx_div(-FX_ONE, 2 * FX_ONE), -FX_HALF);
}

#[test]
fn clamp_pins_into_range() {
    assert_eq!(fx_clamp(5 * FX_ONE, FX_ONE), FX_ONE);
    assert_eq!(fx_clamp(-5 * FX_ONE, FX_ONE), -FX_ONE);
    assert_eq!(fx_clamp(1234, FX_ONE), 1234);
}

#[test]
fn sine_hits_the_grid_points() {
    // the zero crossings are exact; the peaks carry the polynomial's
    // truncation error of a few parts in ten thousand
    assert_eq!(sin_two_pi(0), 0);
    assert_eq!(sin_two_pi(FX_ONE), 0);
    assert_eq!(sin_two_pi(FX_HALF), 0);
    assert!(close(sin_two_pi(FX_QUARTER), FX_ONE, TOL));
    assert!(close(sin_two_pi(FX_QUARTER + FX_HALF), -FX_ONE, TOL));
    assert!(close(cos_two_pi(0), FX_ONE, TOL));
    assert!(close(cos_two_pi(FX_HALF), -FX_ONE, TOL));
}

#[test]
fn sine_tracks_the_real_sine() {
    for k in 0..=64 {
        let x = k * (FX_ONE / 64);
        let expect = ((x as f64 / FX_ONE as f64) * std::f64::consts::TAU).sin();
        let got = sin_two_pi(x) as f64 / FX_ONE as f64;
        assert!((got - expect).abs() < 0.001, "x={k}/64 got={got} expect={expect}");
    }
}

#[test]
fn square_root_fixes_the_endpoints() {
    assert_eq!(sqrt_fx(0), 0);
    assert_eq!(sqrt_fx(FX_ONE), FX_ONE);
    assert!(close(sqrt_fx(FX_QUARTER), FX_HALF, 2));
}

#[test]
fn pow07_endpoints_and_interior() {
    assert_eq!(pow07(FX_ONE), FX_ONE);
    assert_eq!(pow07(0), 0);
    // 0.5^0.7 = 0.61557...; the exponent is approximated to ~0.69995
    let got = pow07(FX_HALF) as f64 / FX_ONE as f64;
    assert!((got - 0.5f64.powf(0.7)).abs() < 0.001, "got {got}");
}

#[test]
fn pow07_is_monotone_on_a_grid() {
    let mut prev = -1i64;
    for k in 0..=32 {
        let v = pow07(k * (FX_ONE / 32));
        assert!(v >= prev);
        prev = v;
    }
}

#[test]
fn pitch_ratio_matches_equal_temperament() {
    assert_eq!(pitch_ratio(0), FX_ONE);
    assert_eq!(pitch_ratio(12), 2 * FX_ONE);
    assert_eq!(pitch_ratio(24), 4 * FX_ONE);
    assert_eq!(pitch_ratio(-12), FX_HALF);
    assert_eq!(pitch_ratio(-24), FX_QUARTER);
    assert_eq!(pitch_ratio(7), semi_ratio(7));
    assert_eq!(pitch_ratio(19), 2 * semi_ratio(7));
    for p in -60..=60 {
        let expect = 2f64.powf(p as f64 / 12.0);
        let got = pitch_ratio(p) as f64 / FX_ONE as f64;
        assert!((got / expect - 1.0).abs() < 1e-6, "p={p}");
    }
}
