//! The types for various price processes.
//!
//! A feed produces the theoretical value of the pool as a fixed-point time
//! series. Each step consumes one noise sample, handed in by the caller, so
//! that the whole series is a mathematical function of the initial state and
//! the noise — a run with the same seed reproduces the same values.
use vstd::prelude::*;

verus! {

use crate::error::ArenaError;
use crate::fixed::{
    abs1, exp_approx_spec, exp_scaled, isqrt, mul_div_up, mul_scaled, mul_scaled_spec, EXP_ARG_CAP,
    NOISE_CAP, PARAM_CAP, SCALE, SCALE_I, VALUE_CAP,
};
use vstd::arithmetic::div_mod::lemma_div_is_ordered;
use vstd::arithmetic::mul::lemma_mul_inequality;

/// Magnitudes below the caps multiply into the representable range.
proof fn lemma_scaled_product_cap(a: int, b: int, ca: int, cb: int)
    requires
        abs1(a) <= ca,
        abs1(b) <= cb,
        0 <= ca,
        0 <= cb,
    ensures
        abs1(a) * abs1(b) <= ca * cb,
        abs1(a) * abs1(b) / (SCALE as int) <= (ca * cb) / (SCALE as int),
        abs1(mul_scaled_spec(a, b)) <= (ca * cb) / (SCALE as int),
{
    lemma_mul_inequality(abs1(a), ca, abs1(b));
    assert(ca * abs1(b) <= ca * cb) by (nonlinear_arith)
        requires
            abs1(b) <= cb,
            0 <= ca,
    ;
    assert(abs1(a) * abs1(b) == abs1(b) * abs1(a)) by (nonlinear_arith);
    lemma_div_is_ordered(abs1(a) * abs1(b), ca * cb, SCALE as int);
    vstd::arithmetic::div_mod::lemma_div_pos_is_pos(abs1(a) * abs1(b), SCALE as int);
}

/// Represents an arbitrary price feed.
///
/// The trait's specification functions pin the whole evolution of an
/// implementation: `stepped` is the state after a successful step with a
/// given noise sample, so two feeds with equal state and equal noise move
/// identically.
pub trait Feed: Sized {
    /// Well-formedness of the feed's state.
    spec fn wf(&self) -> bool;

    /// The feed's current value.
    spec fn value_spec(&self) -> int;

    /// Whether a step with this noise sample leaves the representable range.
    spec fn step_fails(&self, noise: int) -> bool;

    /// The state after a successful step with this noise sample.
    spec fn stepped(&self, noise: int) -> Self;

    /// Returns the current value of the feed.
    fn current_value(&self) -> (v: i128)
        requires
            self.wf(),
        ensures
            v as int == self.value_spec(),
    ;

    /// Whether the feed's state is well formed, decided at run time.
    fn well_formed(&self) -> (r: bool)
        ensures
            r == self.wf(),
    ;

    /// Advances the feed by one step with the given noise sample and
    /// returns the new value.
    ///
    /// A step whose result would leave the value bounds reports
    /// [`ArenaError::InvalidNumericInput`] and leaves the feed unchanged.
    fn step(&mut self, noise: i128) -> (r: Result<i128, ArenaError>)
        requires
            old(self).wf(),
            -NOISE_CAP <= noise <= NOISE_CAP,
        ensures
            final(self).wf(),
            r matches Ok(v) ==> !old(self).step_fails(noise as int) && *final(self)
                == old(self).stepped(noise as int) && v as int == final(self).value_spec(),
            r matches Err(e) ==> old(self).step_fails(noise as int) && e
                == ArenaError::InvalidNumericInput && *final(self) == *old(self),
    ;
}

/// Implementation of an Ornstein-Uhlenbeck process using a Euler-Maruyama
/// discretization scheme.
#[derive(Clone, Copy, PartialEq, Eq, Structural, Debug)]
pub struct OrnsteinUhlenbeck {
    /// The current value of the process.
    pub current_value: i128,
    /// Mean reversion rate.
    pub theta: i128,
    /// Long-term mean.
    pub mu: i128,
    /// Volatility.
    pub sigma: i128,
    /// Time step.
    pub dt: i128,
    /// Floor square root of `dt`, scaled: fixed at construction.
    pub sqrt_dt: i128,
}

/// Whether Ornstein-Uhlenbeck parameters are acceptable: volatility
/// nonnegative, time step positive, and every magnitude within the caps.
pub open spec fn ou_params_ok(
    initial_value: int,
    theta: int,
    mu: int,
    sigma: int,
    dt: int,
) -> bool {
    &&& abs1(initial_value) <= VALUE_CAP as int
    &&& abs1(theta) <= PARAM_CAP as int
    &&& abs1(mu) <= VALUE_CAP as int
    &&& 0 <= sigma <= PARAM_CAP as int
    &&& 1 <= dt <= PARAM_CAP as int
}

impl OrnsteinUhlenbeck {
    /// Well-formedness: parameters in range and the stored root matching.
    pub open spec fn wf_spec(&self) -> bool {
        &&& ou_params_ok(self.current_value as int, self.theta as int, self.mu as int,
            self.sigma as int, self.dt as int)
        &&& 0 <= self.sqrt_dt
        &&& self.sqrt_dt * self.sqrt_dt <= self.dt * (SCALE as int)
        &&& self.dt * (SCALE as int) < (self.sqrt_dt + 1) * (self.sqrt_dt + 1)
    }

    /// The deterministic drift of one step: `theta * (mu - value) * dt`.
    pub open spec fn drift_spec(&self) -> int {
        mul_scaled_spec(
            mul_scaled_spec(self.theta as int, self.mu as int - self.current_value as int),
            self.dt as int,
        )
    }

    /// The random contribution of one step: `sigma * sqrt(dt) * noise`.
    pub open spec fn vol_spec(&self, noise: int) -> int {
        mul_scaled_spec(mul_scaled_spec(self.sigma as int, self.sqrt_dt as int), noise)
    }

    /// The value after one step with the given noise sample.
    pub open spec fn next_value_spec(&self, noise: int) -> int {
        self.current_value as int + self.drift_spec() + self.vol_spec(noise)
    }

    /// Public constructor function for a new [`OrnsteinUhlenbeck`].
    ///
    /// Rejects parameters outside [`ou_params_ok`] with
    /// [`ArenaError::ConfigurationError`].
    pub fn new(initial_value: i128, theta: i128, mu: i128, sigma: i128, dt: i128) -> (r: Result<
        OrnsteinUhlenbeck,
        ArenaError,
    >)
        ensures
            r matches Ok(f) ==> ou_params_ok(
                initial_value as int,
                theta as int,
                mu as int,
                sigma as int,
                dt as int,
            ) && f.wf() && f.value_spec() == initial_value as int && f == (OrnsteinUhlenbeck {
                current_value: initial_value,
                theta,
                mu,
                sigma,
                dt,
                sqrt_dt: f.sqrt_dt,
            }),
            r matches Err(e) ==> !ou_params_ok(
                initial_value as int,
                theta as int,
                mu as int,
                sigma as int,
                dt as int,
            ) && e == ArenaError::ConfigurationError,
    {
        if initial_value < -VALUE_CAP || initial_value > VALUE_CAP || theta < -PARAM_CAP || theta
            > PARAM_CAP || mu < -VALUE_CAP || mu > VALUE_CAP || sigma < 0 || sigma > PARAM_CAP || dt
            < 1 || dt > PARAM_CAP {
            return Err(ArenaError::ConfigurationError);
        }
        let root: u128 = isqrt((dt as u128) * SCALE);
        proof {
            assert((dt as u128) * SCALE <= (PARAM_CAP as u128) * SCALE) by (nonlinear_arith)
                requires
                    1 <= dt <= PARAM_CAP,
            ;
            assert(root * root <= (PARAM_CAP as u128) * SCALE);
            assert(root <= 0x1_0000_0000_0000u128) by (nonlinear_arith)
                requires
                    root * root <= (PARAM_CAP as u128) * SCALE,
            ;
        }
        Ok(
            OrnsteinUhlenbeck {
                current_value: initial_value,
                theta,
                mu,
                sigma,
                dt,
                sqrt_dt: root as i128,
            },
        )
    }
}

impl Feed for OrnsteinUhlenbeck {
    open spec fn wf(&self) -> bool {
        self.wf_spec()
    }

    open spec fn value_spec(&self) -> int {
        self.current_value as int
    }

    open spec fn step_fails(&self, noise: int) -> bool {
        abs1(self.next_value_spec(noise)) > VALUE_CAP as int
    }

    open spec fn stepped(&self, noise: int) -> OrnsteinUhlenbeck {
        OrnsteinUhlenbeck { current_value: self.next_value_spec(noise) as i128, ..*self }
    }

    fn well_formed(&self) -> (r: bool) {
        if self.sqrt_dt < 0 || self.sqrt_dt > 100_000_000_000i128 {
            proof {
                if self.sqrt_dt > 100_000_000_000i128 && self.wf() {
                    assert(self.sqrt_dt * self.sqrt_dt > (PARAM_CAP as int) * (SCALE as int))
                        by (nonlinear_arith)
                        requires
                            self.sqrt_dt > 100_000_000_000i128,
                    ;
                    assert(self.dt * (SCALE as int) <= (PARAM_CAP as int) * (SCALE as int))
                        by (nonlinear_arith)
                        requires
                            1 <= self.dt <= PARAM_CAP,
                    ;
                }
            }
            return false;
        }
        if self.dt < 1 || self.dt > PARAM_CAP {
            return false;
        }
        proof {
            assert(self.sqrt_dt * self.sqrt_dt <= 100_000_000_000i128 * 100_000_000_000i128)
                by (nonlinear_arith)
                requires
                    0 <= self.sqrt_dt <= 100_000_000_000i128,
            ;
            assert((self.sqrt_dt + 1) * (self.sqrt_dt + 1) <= 100_000_000_001i128
                * 100_000_000_001i128) by (nonlinear_arith)
                requires
                    0 <= self.sqrt_dt <= 100_000_000_000i128,
            ;
            assert(self.dt * SCALE_I <= PARAM_CAP * SCALE_I) by (nonlinear_arith)
                requires
                    1 <= self.dt <= PARAM_CAP,
            ;
        }
        self.current_value >= -VALUE_CAP && self.current_value <= VALUE_CAP && self.theta
            >= -PARAM_CAP && self.theta <= PARAM_CAP && self.mu >= -VALUE_CAP && self.mu
            <= VALUE_CAP && self.sigma >= 0 && self.sigma <= PARAM_CAP && self.sqrt_dt
            * self.sqrt_dt <= self.dt * SCALE_I && self.dt * SCALE_I < (self.sqrt_dt + 1) * (
        self.sqrt_dt + 1)
    }

    fn current_value(&self) -> (v: i128) {
        self.current_value
    }

    fn step(&mut self, noise: i128) -> (r: Result<i128, ArenaError>) {
        let diff: i128 = self.mu - self.current_value;
        proof {
            lemma_scaled_product_cap(
                self.theta as int,
                diff as int,
                PARAM_CAP as int,
                2 * VALUE_CAP as int,
            );
        }
        let scaled_rate: i128 = mul_scaled(self.theta, diff);
        proof {
            lemma_scaled_product_cap(
                scaled_rate as int,
                self.dt as int,
                (PARAM_CAP as int) * (2 * VALUE_CAP as int) / (SCALE as int),
                PARAM_CAP as int,
            );
        }
        let drift: i128 = mul_scaled(scaled_rate, self.dt);
        proof {
            assert(self.sqrt_dt * self.sqrt_dt <= (PARAM_CAP as int) * (SCALE as int)) by {
                assert(self.dt * (SCALE as int) <= (PARAM_CAP as int) * (SCALE as int))
                    by (nonlinear_arith)
                    requires
                        1 <= self.dt <= PARAM_CAP,
                ;
            }
            assert(self.sqrt_dt <= 0x1_0000_0000_0000i128) by (nonlinear_arith)
                requires
                    0 <= self.sqrt_dt,
                    self.sqrt_dt * self.sqrt_dt <= (PARAM_CAP as int) * (SCALE as int),
            ;
            lemma_scaled_product_cap(
                self.sigma as int,
                self.sqrt_dt as int,
                PARAM_CAP as int,
                0x1_0000_0000_0000i128 as int,
            );
        }
        let scaled_vol: i128 = mul_scaled(self.sigma, self.sqrt_dt);
        proof {
            lemma_scaled_product_cap(
                scaled_vol as int,
                noise as int,
                (PARAM_CAP as int) * 0x1_0000_0000_0000i128 / (SCALE as int),
                NOISE_CAP as int,
            );
        }
        let vol: i128 = mul_scaled(scaled_vol, noise);
        let next: i128 = self.current_value + drift + vol;
        if next < -VALUE_CAP || next > VALUE_CAP {
            Err(ArenaError::InvalidNumericInput)
        } else {
            self.current_value = next;
            Ok(next)
        }
    }
}

/// Implementation of a geometric Brownian motion using a Euler-Maruyama
/// discretization scheme.
#[derive(Clone, Copy, PartialEq, Eq, Structural, Debug)]
pub struct GeometricBrownianMotion {
    /// The initial value of the process.
    pub initial_value: i128,
    /// The current value of the process.
    pub current_value: i128,
    /// The current time in the process, incremented with each step by the
    /// time step `dt`.
    pub current_time: i128,
    /// The drift coefficient.
    pub mu: i128,
    /// The volatility coefficient.
    pub sigma: i128,
    /// The time step size used for advancing the process.
    pub dt: i128,
    /// Floor square root of `dt`, scaled: fixed at construction.
    pub sqrt_dt: i128,
}

/// Whether geometric-Brownian-motion parameters are acceptable: a strictly
/// positive initial value, volatility nonnegative, time step positive, and
/// every magnitude within the caps.
pub open spec fn gbm_params_ok(initial_value: int, mu: int, sigma: int, dt: int) -> bool {
    &&& 1 <= initial_value <= VALUE_CAP as int
    &&& abs1(mu) <= PARAM_CAP as int
    &&& 0 <= sigma <= PARAM_CAP as int
    &&& 1 <= dt <= PARAM_CAP as int
}

impl GeometricBrownianMotion {
    /// Well-formedness: parameters in range, a strictly positive value, and
    /// the stored root matching.
    pub open spec fn wf_spec(&self) -> bool {
        &&& gbm_params_ok(self.initial_value as int, self.mu as int, self.sigma as int,
            self.dt as int)
        &&& 1 <= self.current_value <= VALUE_CAP as int
        &&& 0 <= self.current_time <= VALUE_CAP as int
        &&& 0 <= self.sqrt_dt
        &&& self.sqrt_dt * self.sqrt_dt <= self.dt * (SCALE as int)
        &&& self.dt * (SCALE as int) < (self.sqrt_dt + 1) * (self.sqrt_dt + 1)
    }

    /// The exponent of one step's multiplicative factor:
    /// `(mu - sigma^2 / 2) * dt + sigma * sqrt(dt) * noise`.
    pub open spec fn exponent_spec(&self, noise: int) -> int {
        mul_scaled_spec(
            self.mu as int - mul_scaled_spec(self.sigma as int, self.sigma as int) / 2,
            self.dt as int,
        ) + mul_scaled_spec(mul_scaled_spec(self.sigma as int, self.sqrt_dt as int), noise)
    }

    /// The value after one step: the old value times the exponential of the
    /// step's exponent, rounded up so that it stays strictly positive.
    pub open spec fn next_value_spec(&self, noise: int) -> int {
        (self.current_value as int * exp_approx_spec(self.exponent_spec(noise)) + SCALE - 1) / (
        SCALE as int)
    }

    /// Public constructor function for a new [`GeometricBrownianMotion`].
    ///
    /// Rejects parameters outside [`gbm_params_ok`] with
    /// [`ArenaError::ConfigurationError`].
    pub fn new(initial_value: i128, mu: i128, sigma: i128, dt: i128) -> (r: Result<
        GeometricBrownianMotion,
        ArenaError,
    >)
        ensures
            r matches Ok(f) ==> gbm_params_ok(
                initial_value as int,
                mu as int,
                sigma as int,
                dt as int,
            ) && f.wf() && f.value_spec() == initial_value as int && f == (GeometricBrownianMotion {
                initial_value,
                current_value: initial_value,
                current_time: 0,
                mu,
                sigma,
                dt,
                sqrt_dt: f.sqrt_dt,
            }),
            r matches Err(e) ==> !gbm_params_ok(
                initial_value as int,
                mu as int,
                sigma as int,
                dt as int,
            ) && e == ArenaError::ConfigurationError,
    {
        if initial_value < 1 || initial_value > VALUE_CAP || mu < -PARAM_CAP || mu > PARAM_CAP
            || sigma < 0 || sigma > PARAM_CAP || dt < 1 || dt > PARAM_CAP {
            return Err(ArenaError::ConfigurationError);
        }
        let root: u128 = isqrt((dt as u128) * SCALE);
        proof {
            assert((dt as u128) * SCALE <= (PARAM_CAP as u128) * SCALE) by (nonlinear_arith)
                requires
                    1 <= dt <= PARAM_CAP,
            ;
            assert(root <= 0x1_0000_0000_0000u128) by (nonlinear_arith)
                requires
                    root * root <= (PARAM_CAP as u128) * SCALE,
            ;
        }
        Ok(
            GeometricBrownianMotion {
                initial_value,
                current_value: initial_value,
                current_time: 0,
                mu,
                sigma,
                dt,
                sqrt_dt: root as i128,
            },
        )
    }
}

impl Feed for GeometricBrownianMotion {
    open spec fn wf(&self) -> bool {
        self.wf_spec()
    }

    open spec fn value_spec(&self) -> int {
        self.current_value as int
    }

    open spec fn step_fails(&self, noise: int) -> bool {
        ||| abs1(self.exponent_spec(noise)) > EXP_ARG_CAP as int
        ||| self.next_value_spec(noise) > VALUE_CAP as int
        ||| self.current_time as int + self.dt as int > VALUE_CAP as int
    }

    open spec fn stepped(&self, noise: int) -> GeometricBrownianMotion {
        GeometricBrownianMotion {
            current_value: self.next_value_spec(noise) as i128,
            current_time: (self.current_time + self.dt) as i128,
            ..*self
        }
    }

    fn well_formed(&self) -> (r: bool) {
        if self.sqrt_dt < 0 || self.sqrt_dt > 100_000_000_000i128 {
            proof {
                if self.sqrt_dt > 100_000_000_000i128 && self.wf() {
                    assert(self.sqrt_dt * self.sqrt_dt > (PARAM_CAP as int) * (SCALE as int))
                        by (nonlinear_arith)
                        requires
                            self.sqrt_dt > 100_000_000_000i128,
                    ;
                    assert(self.dt * (SCALE as int) <= (PARAM_CAP as int) * (SCALE as int))
                        by (nonlinear_arith)
                        requires
                            1 <= self.dt <= PARAM_CAP,
                    ;
                }
            }
            return false;
        }
        if self.dt < 1 || self.dt > PARAM_CAP {
            return false;
        }
        proof {
            assert(self.sqrt_dt * self.sqrt_dt <= 100_000_000_000i128 * 100_000_000_000i128)
                by (nonlinear_arith)
                requires
                    0 <= self.sqrt_dt <= 100_000_000_000i128,
            ;
            assert((self.sqrt_dt + 1) * (self.sqrt_dt + 1) <= 100_000_000_001i128
                * 100_000_000_001i128) by (nonlinear_arith)
                requires
                    0 <= self.sqrt_dt <= 100_000_000_000i128,
            ;
            assert(self.dt * SCALE_I <= PARAM_CAP * SCALE_I) by (nonlinear_arith)
                requires
                    1 <= self.dt <= PARAM_CAP,
            ;
        }
        self.initial_value >= 1 && self.initial_value <= VALUE_CAP && self.mu >= -PARAM_CAP
            && self.mu <= PARAM_CAP && self.sigma >= 0 && self.sigma <= PARAM_CAP
            && self.current_value >= 1 && self.current_value <= VALUE_CAP && self.current_time
            >= 0 && self.current_time <= VALUE_CAP && self.sqrt_dt * self.sqrt_dt <= self.dt
            * SCALE_I && self.dt * SCALE_I < (self.sqrt_dt + 1) * (self.sqrt_dt + 1)
    }

    fn current_value(&self) -> (v: i128) {
        self.current_value
    }

    fn step(&mut self, noise: i128) -> (r: Result<i128, ArenaError>) {
        proof {
            lemma_scaled_product_cap(
                self.sigma as int,
                self.sigma as int,
                PARAM_CAP as int,
                PARAM_CAP as int,
            );
        }
        let half_var: i128 = mul_scaled(self.sigma, self.sigma) / 2;
        let rate: i128 = self.mu - half_var;
        proof {
            lemma_scaled_product_cap(
                rate as int,
                self.dt as int,
                PARAM_CAP as int + (PARAM_CAP as int) * (PARAM_CAP as int) / (SCALE as int),
                PARAM_CAP as int,
            );
            assert(self.sqrt_dt * self.sqrt_dt <= (PARAM_CAP as int) * (SCALE as int)) by {
                assert(self.dt * (SCALE as int) <= (PARAM_CAP as int) * (SCALE as int))
                    by (nonlinear_arith)
                    requires
                        1 <= self.dt <= PARAM_CAP,
                ;
            }
            assert(self.sqrt_dt <= 0x1_0000_0000_0000i128) by (nonlinear_arith)
                requires
                    0 <= self.sqrt_dt,
                    self.sqrt_dt * self.sqrt_dt <= (PARAM_CAP as int) * (SCALE as int),
            ;
            lemma_scaled_product_cap(
                self.sigma as int,
                self.sqrt_dt as int,
                PARAM_CAP as int,
                0x1_0000_0000_0000i128 as int,
            );
        }
        let drift_part: i128 = mul_scaled(rate, self.dt);
        let scaled_vol: i128 = mul_scaled(self.sigma, self.sqrt_dt);
        proof {
            lemma_scaled_product_cap(
                scaled_vol as int,
                noise as int,
                (PARAM_CAP as int) * 0x1_0000_0000_0000i128 / (SCALE as int),
                NOISE_CAP as int,
            );
        }
        let vol_part: i128 = mul_scaled(scaled_vol, noise);
        let exponent: i128 = drift_part + vol_part;
        if exponent < -EXP_ARG_CAP || exponent > EXP_ARG_CAP {
            return Err(ArenaError::InvalidNumericInput);
        }
        if self.current_time > VALUE_CAP - self.dt {
            return Err(ArenaError::InvalidNumericInput);
        }
        let factor: u128 = exp_scaled(exponent);
        proof {
            assert((self.current_value as u128) * factor <= (VALUE_CAP as u128) * (129 * SCALE))
                by (nonlinear_arith)
                requires
                    1 <= self.current_value <= VALUE_CAP,
                    1 <= factor <= 129 * SCALE,
            ;
            assert((self.current_value as u128) * factor >= 1) by (nonlinear_arith)
                requires
                    1 <= self.current_value,
                    1 <= factor,
            ;
        }
        let next: u128 = mul_div_up(self.current_value as u128, factor, SCALE);
        if next > VALUE_CAP as u128 {
            return Err(ArenaError::InvalidNumericInput);
        }
        self.current_value = next as i128;
        self.current_time = self.current_time + self.dt;
        Ok(self.current_value)
    }
}

/// A well-formed geometric Brownian motion is strictly positive, and every
/// step keeps it so: the update is multiplicative with a positive factor,
/// rounded up to the smallest positive quantum.
pub proof fn lemma_gbm_positive(f: GeometricBrownianMotion)
    requires
        f.wf(),
    ensures
        f.value_spec() >= 1,
{
}

/// Mean reversion without noise: with zero volatility, nonnegative rate
/// and a rate-step product of at most one, a step never moves the value
/// past the long-term mean, and never away from it.
pub proof fn lemma_ou_mean_reversion(f: OrnsteinUhlenbeck, noise: int)
    requires
        f.wf(),
        f.sigma == 0,
        0 <= f.theta,
        f.theta * f.dt <= (SCALE_I as int) * (SCALE_I as int),
    ensures
        abs1(f.next_value_spec(noise) - f.mu as int) <= abs1(f.value_spec() - f.mu as int),
{
    let s = SCALE as int;
    let diff = f.mu as int - f.current_value as int;
    let a = abs1(diff);
    let t1 = mul_scaled_spec(f.theta as int, diff);
    let drift = mul_scaled_spec(t1, f.dt as int);
    assert(abs1(0 * (f.sqrt_dt as int)) == 0) by (nonlinear_arith);
    assert(mul_scaled_spec(f.sigma as int, f.sqrt_dt as int) == 0) by {
        vstd::arithmetic::div_mod::lemma_div_of0(s);
    }
    assert(abs1(0 * noise) == 0) by (nonlinear_arith);
    assert(f.vol_spec(noise) == 0) by {
        vstd::arithmetic::div_mod::lemma_div_of0(s);
    }
    vstd::arithmetic::div_mod::lemma_div_pos_is_pos(f.theta * a, s);
    assert(abs1(f.theta as int) == f.theta as int);
    assert(abs1(f.dt as int) == f.dt as int);
    if diff >= 0 {
        assert(t1 == (f.theta * a) / s);
    } else {
        assert(t1 == -((f.theta * a) / s));
    }
    assert(abs1(t1) == (f.theta * a) / s);
    vstd::arithmetic::div_mod::lemma_div_pos_is_pos(abs1(t1) * f.dt, s);
    if t1 >= 0 {
        assert(drift == (abs1(t1) * (f.dt as int)) / s);
    } else {
        assert(drift == -((abs1(t1) * (f.dt as int)) / s));
    }
    assert(abs1(drift) == (abs1(t1) * f.dt) / s);
    // abs1(t1) * s <= theta * a, so abs1(t1) * dt * s <= theta * a * dt
    vstd::arithmetic::div_mod::lemma_fundamental_div_mod(f.theta * a, s);
    assert(abs1(t1) * s <= f.theta * a) by (nonlinear_arith)
        requires
            abs1(t1) == (f.theta * a) / s,
            f.theta * a == s * ((f.theta * a) / s) + (f.theta * a) % s,
            0 <= (f.theta * a) % s,
    ;
    assert(abs1(t1) * f.dt * s <= f.theta * a * f.dt) by (nonlinear_arith)
        requires
            abs1(t1) * s <= f.theta * a,
            1 <= f.dt,
    ;
    assert(f.theta * a * f.dt <= s * s * a) by (nonlinear_arith)
        requires
            f.theta * f.dt <= s * s,
            0 <= a,
            0 <= f.theta,
            1 <= f.dt,
    ;
    assert((abs1(t1) * f.dt) / s <= a) by (nonlinear_arith)
        requires
            abs1(t1) * f.dt * s <= s * s * a,
            0 <= abs1(t1) * f.dt,
            0 < s,
            0 <= a,
    ;
    assert(abs1(drift) <= a);
    if t1 == 0 {
        assert(abs1(t1) * (f.dt as int) == 0) by (nonlinear_arith)
            requires
                abs1(t1) == 0,
        ;
        vstd::arithmetic::div_mod::lemma_div_of0(s);
        assert(drift == 0);
    }
    if diff >= 0 {
        assert(drift >= 0);
    } else {
        assert(drift <= 0);
    }
}

} // verus!
