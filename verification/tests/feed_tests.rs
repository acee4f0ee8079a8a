use arena_core::error::ArenaError;
use arena_core::feed::{Feed, GeometricBrownianMotion, OrnsteinUhlenbeck};
use arena_core::rng::NoiseSource;

const SCALE: i128 = 1_000_000_000;

#[test]
fn ou_rejects_negative_volatility() {
    let r = OrnsteinUhlenbeck::new(SCALE, SCALE / 10, SCALE, -1, SCALE);
    assert!(matches!(r, Err(ArenaError::ConfigurationError)));
}

#[test]
fn ou_rejects_nonpositive_time_step() {
    let r = OrnsteinUhlenbeck::new(SCALE, SCALE / 10, SCALE, 0, 0);
    assert!(matches!(r, Err(ArenaError::ConfigurationError)));
}

#[test]
fn gbm_rejects_nonpositive_start() {
    let r = GeometricBrownianMotion::new(0, 0, 0, SCALE);
    assert!(matches!(r, Err(ArenaError::ConfigurationError)));
}

#[test]
fn ou_noiseless_step_decays_toward_mean() {
    // initial 2.0, theta 0.5, mu 1.0, sigma 0, dt 1.0:
    // drift = 0.5 * (1.0 - 2.0) * 1.0 = -0.5, so one step lands on 1.5.
    let mut feed =
        OrnsteinUhlenbeck::new(2 * SCALE, SCALE / 2, SCALE, 0, SCALE).unwrap();
    let v = feed.step(0).unwrap();
    assert_eq!(v, 3 * SCALE / 2);
    let v = feed.step(0).unwrap();
    assert_eq!(v, SCALE + SCALE / 4);
}

#[test]
fn ou_long_run_mean_approaches_mu() {
    // theta 0.5, mu 1.0, sigma 0.1, dt 0.01 over 100000 steps with a fixed
    // seed: the sample mean stays within three standard errors of the
    // long-term mean.
    let mut feed = OrnsteinUhlenbeck::new(
        SCALE,
        SCALE / 2,
        SCALE,
        SCALE / 10,
        SCALE / 100,
    )
    .unwrap();
    let mut noise = NoiseSource::new(27);
    let n: usize = 100_000;
    let mut sum: i128 = 0;
    for _ in 0..n {
        let v = feed.step(noise.next_gaussian()).unwrap();
        sum += v;
    }
    let mean = (sum as f64) / (n as f64) / (SCALE as f64);
    let sigma = 0.1f64;
    let tolerance = 3.0 * sigma / (n as f64).sqrt();
    assert!(
        (mean - 1.0).abs() < tolerance,
        "sample mean {} strays from 1.0 beyond {}",
        mean,
        tolerance
    );
}

#[test]
fn gbm_stays_strictly_positive() {
    let mut feed = GeometricBrownianMotion::new(
        SCALE,
        -SCALE / 10,
        3 * SCALE / 10,
        SCALE / 10,
    )
    .unwrap();
    let mut noise = NoiseSource::new(5);
    for _ in 0..5000 {
        let v = feed.step(noise.next_gaussian()).unwrap();
        assert!(v > 0);
    }
}

#[test]
fn gbm_flat_parameters_hold_the_value() {
    let mut feed = GeometricBrownianMotion::new(SCALE, 0, 0, SCALE).unwrap();
    let v = feed.step(0).unwrap();
    assert_eq!(v, SCALE);
    assert_eq!(feed.current_time, SCALE);
}

#[test]
fn noise_source_is_reproducible_and_bounded() {
    let mut a = NoiseSource::new(11);
    let mut b = NoiseSource::new(11);
    for _ in 0..100 {
        let x = a.next_gaussian();
        let y = b.next_gaussian();
        assert_eq!(x, y);
        assert!(x >= -6 * SCALE && x <= 6 * SCALE);
    }
}
