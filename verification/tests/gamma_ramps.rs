use noctis::fixed::{clamp_between, clamp_unit, ONE};
use noctis::gamma::{calculate_curve, calculate_dim_curve, night_gamma, GammaRamp};

fn response(intensity: i32) -> [u16; 256] {
    let (numerator, denominator) = night_gamma(intensity);
    let gamma = numerator as f64 / denominator as f64;
    let mut tone = [0u16; 256];
    for (i, slot) in tone.iter_mut().enumerate() {
        let x = i as f64 / 255.0;
        *slot = (x.powf(gamma) * 65535.0).round() as u16;
    }
    tone
}

fn assert_grey(ramp: &GammaRamp) {
    assert_eq!(ramp.red, ramp.green);
    assert_eq!(ramp.green, ramp.blue);
}

#[test]
fn clamp_unit_holds_fractions_to_the_unit_interval() {
    assert_eq!(clamp_unit(-1), 0);
    assert_eq!(clamp_unit(0), 0);
    assert_eq!(clamp_unit(250_000), 250_000);
    assert_eq!(clamp_unit(ONE), ONE);
    assert_eq!(clamp_unit(ONE + 1), ONE);
    assert_eq!(clamp_unit(i32::MIN), 0);
    assert_eq!(clamp_unit(i32::MAX), ONE);
}

#[test]
fn clamp_between_holds_to_the_bounds() {
    assert_eq!(clamp_between(3, 5, 9), 5);
    assert_eq!(clamp_between(7, 5, 9), 7);
    assert_eq!(clamp_between(12, 5, 9), 9);
    assert_eq!(clamp_between(5, 5, 5), 5);
}

#[test]
fn night_gamma_is_one_less_half_the_intensity() {
    assert_eq!(night_gamma(0), (2_000_000, 2_000_000));
    assert_eq!(night_gamma(ONE), (1_000_000, 2_000_000));
    assert_eq!(night_gamma(500_000), (1_500_000, 2_000_000));
    assert_eq!(night_gamma(333_333), (1_666_667, 2_000_000));
    assert_eq!(night_gamma(-7), (2_000_000, 2_000_000));
    assert_eq!(night_gamma(5 * ONE), (1_000_000, 2_000_000));
}

#[test]
fn night_curve_at_zero_intensity_is_the_response_itself() {
    let tone = response(0);
    let ramp = calculate_curve(0, &tone);
    assert_grey(&ramp);
    for i in 0..256usize {
        assert_eq!(tone[i] as usize, i * 257);
        assert_eq!(ramp.red[i], tone[i]);
    }
    // Black and the level after it lie within one unit of `i * 256`.
    assert_eq!(ramp.red[0], 0);
    assert_eq!(ramp.red[1] as i32 - 256, 1);
    assert_eq!(ramp.red[255], 65535);
}

#[test]
fn night_curve_at_full_intensity_lifts_black_by_a_quarter() {
    let tone = response(ONE);
    let ramp = calculate_curve(ONE, &tone);
    assert_grey(&ramp);
    // 0.25 * 65535 = 16383.75, rounded down.
    assert_eq!(ramp.red[0], 16383);
    assert_eq!(ramp.red[255], 65535);
}

#[test]
fn night_curve_follows_its_formula() {
    let mut tone = [0u16; 256];
    tone[7] = 32768;
    tone[8] = 65535;
    tone[9] = 1;
    let ramp = calculate_curve(500_000, &tone);
    // (65535 * 500000 + 32768 * 3500000) / 4000000 = 36863.875
    assert_eq!(ramp.red[7], 36863);
    assert_eq!(ramp.red[8], 65535);
    // (65535 * 500000 + 3500000) / 4000000 = 8192.75
    assert_eq!(ramp.red[9], 8192);
    // (65535 * 500000) / 4000000 = 8191.875
    assert_eq!(ramp.red[0], 8191);
    assert_grey(&ramp);
}

#[test]
fn night_curve_never_falls_and_never_sinks_under_the_response() {
    for intensity in [0, 1, 100_000, 250_000, 333_333, 500_000, 750_000, 999_999, ONE] {
        let tone = response(intensity);
        let ramp = calculate_curve(intensity, &tone);
        assert_grey(&ramp);
        for i in 0..256usize {
            assert!(ramp.red[i] >= tone[i]);
            if i > 0 {
                assert!(ramp.red[i] >= ramp.red[i - 1]);
            }
        }
        assert_eq!(ramp.red[255], 65535);
    }
}

#[test]
fn night_curve_holds_the_intensity_to_the_unit_interval() {
    let tone = response(ONE);
    assert_eq!(calculate_curve(-5, &tone), calculate_curve(0, &tone));
    assert_eq!(calculate_curve(i32::MIN, &tone), calculate_curve(0, &tone));
    assert_eq!(calculate_curve(2 * ONE, &tone), calculate_curve(ONE, &tone));
    assert_eq!(calculate_curve(i32::MAX, &tone), calculate_curve(ONE, &tone));
    assert_ne!(calculate_curve(0, &tone), calculate_curve(ONE, &tone));
}

#[test]
fn dim_curve_scales_every_level() {
    let ramp = calculate_dim_curve(750_000);
    assert_grey(&ramp);
    for i in 0..256usize {
        assert_eq!(ramp.red[i] as usize, i * 192);
    }
    let ramp = calculate_dim_curve(ONE);
    for i in 0..256usize {
        assert_eq!(ramp.red[i] as usize, i * 256);
    }
    // 200 * 0.9 * 256 = 46080; 3 * 600001 * 256 / 1000000 = 460.8
    assert_eq!(calculate_dim_curve(900_000).red[200], 46080);
    assert_eq!(calculate_dim_curve(600_001).red[3], 460);
}

#[test]
fn dim_curve_never_goes_under_half_brightness() {
    let half = calculate_dim_curve(500_000);
    for i in 0..256usize {
        assert_eq!(half.red[i] as usize, i * 128);
    }
    assert_eq!(calculate_dim_curve(0), half);
    assert_eq!(calculate_dim_curve(-ONE), half);
    assert_eq!(calculate_dim_curve(499_999), half);
    assert_eq!(calculate_dim_curve(3 * ONE), calculate_dim_curve(ONE));
}

#[test]
fn dim_curve_stays_within_32768_of_the_identity_ramp() {
    for brightness in [i32::MIN, 0, 500_000, 500_001, 640_000, 777_777, 999_999, ONE, i32::MAX] {
        let ramp = calculate_dim_curve(brightness);
        for i in 0..256usize {
            let identity = (i * 256) as i64;
            let value = ramp.red[i] as i64;
            assert!((value - identity).abs() <= 32768);
            assert!(value <= identity);
            if i > 0 {
                assert!(ramp.red[i] >= ramp.red[i - 1]);
            }
        }
    }
}
