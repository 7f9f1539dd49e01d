use std::sync::atomic::{AtomicUsize, Ordering};

use rand::rngs::SmallRng;
use rand::{RngCore, SeedableRng};

use replicator::scalar::Scalar;
use replicator::solvers::non_spatial::noise::{
    apply_noise_inplace, perturb, standard_normal, unit_interval, Noise, NoiseContext,
};
use replicator::solvers::non_spatial::rk4::{
    integrate, rhs_inplace, rk4_step_inplace_raw, solve, Rk4Scratch, SolveError,
};
use replicator::state::{Field, Mode, SystemState, SystemStateTimeSeries};
use replicator::tasks::EpochSequence;

/// Double-precision numbers as the engine's scalar.
#[derive(Clone, Copy, Debug, PartialEq)]
struct Real(f64);

impl Scalar for Real {
    fn zero() -> Self { Real(0.0) }
    fn one() -> Self { Real(1.0) }
    fn tau() -> Self { Real(std::f64::consts::TAU) }
    fn from_u64(n: u64) -> Self { Real(n as f64) }
    fn add(self, rhs: Self) -> Self { Real(self.0 + rhs.0) }
    fn sub(self, rhs: Self) -> Self { Real(self.0 - rhs.0) }
    fn mul(self, rhs: Self) -> Self { Real(self.0 * rhs.0) }
    fn div(self, rhs: Self) -> Self { Real(self.0 / rhs.0) }
    fn max(self, rhs: Self) -> Self { Real(self.0.max(rhs.0)) }
    fn round(self) -> Self { Real(self.0.round()) }
    fn sqrt(self) -> Self { Real(self.0.sqrt()) }
    fn ln(self) -> Self { Real(self.0.ln()) }
    fn cos(self) -> Self { Real(self.0.cos()) }
    fn is_finite(self) -> bool { self.0.is_finite() }
    fn lt(self, rhs: Self) -> bool { self.0 < rhs.0 }
    fn eq(self, rhs: Self) -> bool { self.0 == rhs.0 }

    fn zero_spec() -> Self { Self::zero() }
    fn one_spec() -> Self { Self::one() }
    fn tau_spec() -> Self { Self::tau() }
    fn from_u64_spec(n: u64) -> Self { Self::from_u64(n) }
    fn add_spec(self, rhs: Self) -> Self { self.add(rhs) }
    fn sub_spec(self, rhs: Self) -> Self { self.sub(rhs) }
    fn mul_spec(self, rhs: Self) -> Self { self.mul(rhs) }
    fn div_spec(self, rhs: Self) -> Self { self.div(rhs) }
    fn max_spec(self, rhs: Self) -> Self { self.max(rhs) }
    fn round_spec(self) -> Self { self.round() }
    fn sqrt_spec(self) -> Self { self.sqrt() }
    fn ln_spec(self) -> Self { self.ln() }
    fn cos_spec(self) -> Self { self.cos() }
    fn is_finite_spec(self) -> bool { self.is_finite() }
    fn lt_spec(self, rhs: Self) -> bool { self.lt(rhs) }
    fn eq_spec(self, rhs: Self) -> bool { Scalar::eq(self, rhs) }
    fn zero_laws() {}
}

fn reals(values: &[f64]) -> Vec<Real> {
    values.iter().map(|x| Real(*x)).collect()
}

fn floats(values: &[Real]) -> Vec<f64> {
    values.iter().map(|x| x.0).collect()
}

fn matrix(rows: &[&[f64]]) -> Vec<Vec<Real>> {
    rows.iter().map(|row| reals(row)).collect()
}

fn toy_matrix() -> Vec<Vec<Real>> {
    matrix(&[
        &[0.0, 1.0, -0.5, 0.2],
        &[-0.3, 0.0, 0.8, -0.1],
        &[0.4, -0.6, 0.0, 0.9],
        &[-0.2, 0.1, -0.7, 0.0],
    ])
}

fn toy_growth() -> Vec<Real> {
    reals(&[0.1, 0.0, -0.05, 0.02])
}

fn toy_initial(cutoff: f64) -> SystemState<Real> {
    SystemState::from_arrays(
        Mode::Frequency { cutoff: Real(cutoff) },
        0,
        reals(&[0.7, 0.1, 0.1, 0.1]),
        None,
    )
}

/// The replicator vector field written out on plain floats.
fn reference_rhs(nu: &[f64], g: &[f64], v: &[Vec<f64>]) -> Vec<f64> {
    let d = nu.len();
    let mut w = vec![0.0; d];
    for i in 0..d {
        let mut acc = 0.0;
        for j in 0..d {
            acc += v[i][j] * nu[j];
        }
        w[i] = acc;
    }
    let mut upsilon = 0.0;
    for i in 0..d {
        upsilon += nu[i] * (g[i] + w[i]);
    }
    (0..d).map(|i| nu[i] * (g[i] + w[i] - upsilon)).collect()
}

/// The classical Runge-Kutta step written out on plain floats.
fn reference_step(nu: &[f64], g: &[f64], v: &[Vec<f64>], dt: f64) -> Vec<f64> {
    let d = nu.len();
    let shifted = |k: &[f64], h: f64| -> Vec<f64> { (0..d).map(|i| nu[i] + h * k[i]).collect() };
    let k1 = reference_rhs(nu, g, v);
    let k2 = reference_rhs(&shifted(&k1, 0.5 * dt), g, v);
    let k3 = reference_rhs(&shifted(&k2, 0.5 * dt), g, v);
    let k4 = reference_rhs(&shifted(&k3, dt), g, v);
    (0..d)
        .map(|i| {
            let val = nu[i] + dt / 6.0 * (k1[i] + 2.0 * k2[i] + 2.0 * k3[i] + k4[i]);
            if !val.is_finite() || val <= 0.0 {
                0.0
            } else {
                val
            }
        })
        .collect()
}

fn plain(rows: &[Vec<Real>]) -> Vec<Vec<f64>> {
    rows.iter().map(|row| floats(row)).collect()
}

fn raw_step(nu: &[f64], g: &[f64], v: &[Vec<Real>], dt: f64) -> Vec<f64> {
    let d = nu.len();
    let mut sc = Rk4Scratch::new(d);
    let mut out = reals(&vec![f64::NAN; d]);
    rk4_step_inplace_raw(&reals(nu), &reals(g), &v.to_vec(), Real(dt), &mut sc, &mut out);
    floats(&out)
}

fn run_quiet(
    initial: SystemState<Real>,
    num_steps: usize,
    save_interval: usize,
) -> (SystemState<Real>, SystemStateTimeSeries<Real>) {
    solve(
        1,
        initial,
        &toy_matrix(),
        Some(&toy_growth()),
        Noise::none(),
        Real(1e-3),
        num_steps,
        save_interval,
        None,
    )
    .unwrap()
}

#[test]
fn rhs_of_a_two_taxon_game() {
    let nu = reals(&[0.5, 0.5]);
    let g = reals(&[0.1, 0.0]);
    let v = matrix(&[&[0.0, 1.0], &[-1.0, 0.0]]);
    let mut w = reals(&[9.0, 9.0]);
    let mut drift = reals(&[9.0, 9.0]);
    let mut out = reals(&[9.0, 9.0]);
    rhs_inplace(&nu, &g, &v, &mut w, &mut drift, &mut out);
    assert_eq!(floats(&w), vec![0.5, -0.5]);
    let upsilon: f64 = 0.0 + 0.5 * (0.1 + 0.5) + 0.5 * (0.0 + -0.5);
    assert!((upsilon - 0.05).abs() < 1e-15);
    assert_eq!(floats(&drift), vec![0.1 + 0.5 - upsilon, 0.0 + -0.5 - upsilon]);
    assert_eq!(floats(&out), vec![0.5 * (0.1 + 0.5 - upsilon), 0.5 * (0.0 + -0.5 - upsilon)]);
    assert!((out[0].0 - 0.275).abs() < 1e-15);
    assert!((out[1].0 + 0.275).abs() < 1e-15);
}

#[test]
fn rhs_conserves_mass_on_the_simplex() {
    let nu = reals(&[0.7, 0.1, 0.1, 0.1]);
    let mut w = reals(&[0.0; 4]);
    let mut drift = reals(&[0.0; 4]);
    let mut out = reals(&[0.0; 4]);
    rhs_inplace(&nu, &toy_growth(), &toy_matrix(), &mut w, &mut drift, &mut out);
    let expected = reference_rhs(&floats(&nu), &floats(&toy_growth()), &plain(&toy_matrix()));
    assert_eq!(floats(&out), expected);
    let net: f64 = out.iter().map(|x| x.0).sum();
    assert!(net.abs() < 1e-15);
}

#[test]
fn raw_step_of_a_state_at_rest_stays_put() {
    let v = matrix(&[&[0.0, 0.0], &[0.0, 0.0]]);
    assert_eq!(raw_step(&[0.25, 0.75], &[0.0, 0.0], &v, 0.1), vec![0.25, 0.75]);
    let v = matrix(&[&[0.3]]);
    assert_eq!(raw_step(&[1.0], &[2.0], &v, 0.5), vec![1.0]);
}

#[test]
fn raw_step_with_zero_step_size_is_the_identity() {
    let nu = [0.7, 0.1, 0.1, 0.1];
    assert_eq!(raw_step(&nu, &floats(&toy_growth()), &toy_matrix(), 0.0), nu.to_vec());
}

#[test]
fn raw_step_matches_the_formula() {
    let nu = [0.7, 0.1, 0.1, 0.1];
    let g = floats(&toy_growth());
    let expected = reference_step(&nu, &g, &plain(&toy_matrix()), 1e-3);
    let got = raw_step(&nu, &g, &toy_matrix(), 1e-3);
    assert_eq!(got, expected);
    assert_ne!(got, nu.to_vec());
    let sum: f64 = got.iter().sum();
    assert!((sum - 1.0).abs() < 1e-12);
    let expected = reference_step(&nu, &g, &plain(&toy_matrix()), 0.25);
    assert_eq!(raw_step(&nu, &g, &toy_matrix(), 0.25), expected);
}

#[test]
fn raw_step_of_exponential_growth_tracks_the_exponential() {
    // One taxon growing against an absent competitor: with frequencies far from
    // the simplex the first entry follows nu' = nu * (1 - nu) * g to fourth order.
    let v = matrix(&[&[0.0, 0.0], &[0.0, 0.0]]);
    let got = raw_step(&[0.5, 0.5], &[1.0, 0.0], &v, 0.1);
    let logistic = 1.0 / (1.0 + (-0.1f64).exp());
    assert!((got[0] - logistic).abs() < 1e-8);
    assert!((got[1] - (1.0 - logistic)).abs() < 1e-8);
}

#[test]
fn raw_step_clamps_what_is_not_positive_or_not_finite() {
    let v = matrix(&[&[0.0, 0.0], &[0.0, 0.0]]);
    assert_eq!(raw_step(&[-1.0, 0.0], &[0.0, 0.0], &v, 0.1), vec![0.0, 0.0]);
    assert_eq!(raw_step(&[f64::NAN, 0.5], &[0.0, 0.0], &v, 0.1), vec![0.0, 0.0]);
    assert_eq!(raw_step(&[f64::INFINITY, 0.5], &[0.0, 0.0], &v, 0.1), vec![0.0, 0.0]);
    let v = matrix(&[&[0.0]]);
    assert_eq!(raw_step(&[1e200], &[1e200], &v, 1.0), vec![0.0]);
}

#[test]
fn raw_step_does_not_enforce_the_simplex() {
    let v = matrix(&[&[0.0, 0.0], &[0.0, 0.0]]);
    assert_eq!(raw_step(&[3.0, 4.0], &[0.0, 0.0], &v, 0.1), vec![3.0, 4.0]);
}

#[test]
fn raw_step_is_deterministic() {
    let nu = reals(&[0.7, 0.1, 0.1, 0.1]);
    let mut first_scratch = Rk4Scratch::new(4);
    let mut first = reals(&[0.0; 4]);
    rk4_step_inplace_raw(
        &nu, &toy_growth(), &toy_matrix(), Real(1e-3), &mut first_scratch, &mut first,
    );
    let mut second_scratch = Rk4Scratch {
        k1: reals(&[1.0; 4]),
        k2: reals(&[-2.0; 4]),
        k3: reals(&[f64::NAN; 4]),
        k4: reals(&[4.0; 4]),
        tmp: reals(&[5.0; 4]),
        w: reals(&[f64::INFINITY; 4]),
        drift: reals(&[7.0; 4]),
    };
    let mut second = reals(&[123.0; 4]);
    rk4_step_inplace_raw(
        &nu, &toy_growth(), &toy_matrix(), Real(1e-3), &mut second_scratch, &mut second,
    );
    let bits = |values: &[Real]| -> Vec<u64> { values.iter().map(|x| x.0.to_bits()).collect() };
    assert_eq!(bits(&first), bits(&second));
    // The scratch buffers are reusable: a second step through used buffers agrees too.
    let mut third = reals(&[0.0; 4]);
    rk4_step_inplace_raw(
        &nu, &toy_growth(), &toy_matrix(), Real(1e-3), &mut second_scratch, &mut third,
    );
    assert_eq!(bits(&first), bits(&third));
}

#[test]
fn scratch_holds_one_entry_per_taxon() {
    let sc: Rk4Scratch<Real> = Rk4Scratch::new(3);
    for buffer in [&sc.k1, &sc.k2, &sc.k3, &sc.k4, &sc.tmp, &sc.w, &sc.drift] {
        assert_eq!(floats(buffer), vec![0.0; 3]);
    }
}

#[test]
fn noise_none_is_the_identity() {
    let mut gs = toy_initial(1e-5);
    let before = gs.clone();
    let mut ctx = NoiseContext::new(4);
    let mut rng = SmallRng::seed_from_u64(7);
    let untouched = rng.clone();
    apply_noise_inplace(&mut gs, Noise::none(), Real(0.01), &mut ctx, &mut rng);
    assert_eq!(gs.state, before.state);
    assert_eq!(gs.mass, before.mass);
    assert_eq!(gs.time, before.time);
    assert_eq!(floats(&ctx.draws), vec![0.0; 4]);
    assert_eq!(rng, untouched);
    let mut values = reals(&[0.3, f64::INFINITY, -1.0]);
    perturb(&mut values, Noise::none(), Real(0.01), &reals(&[1.0, 2.0, 3.0]));
    assert_eq!(floats(&values), vec![0.3, f64::INFINITY, -1.0]);
}

#[test]
fn noise_constructors_name_their_kind() {
    assert!(matches!(Noise::<Real>::none(), Noise::Off));
    assert!(matches!(
        Noise::proportional_gaussian(Real(0.5)),
        Noise::ProportionalGaussian(sigma) if sigma == Real(0.5)
    ));
    assert!(matches!(
        Noise::demographic_gaussian(Real(0.25)),
        Noise::DemographicGaussian(sigma) if sigma == Real(0.25)
    ));
}

#[test]
fn proportional_noise_scales_with_the_entry() {
    let mut values = reals(&[4.0, 9.0, 0.0]);
    let draws = reals(&[1.0, -2.0, 5.0]);
    perturb(&mut values, Noise::proportional_gaussian(Real(0.5)), Real(0.25), &draws);
    assert_eq!(floats(&values), vec![5.0, 4.5, 0.0]);
}

#[test]
fn demographic_noise_scales_with_the_root_of_the_entry() {
    let mut values = reals(&[4.0, 9.0, 0.0]);
    let draws = reals(&[1.0, -2.0, 5.0]);
    perturb(&mut values, Noise::demographic_gaussian(Real(0.5)), Real(0.25), &draws);
    assert_eq!(floats(&values), vec![4.5, 7.5, 0.0]);
}

#[test]
fn unit_interval_excludes_zero_and_includes_one() {
    let step = 1.0 / 9007199254740992.0;
    assert_eq!(unit_interval::<Real>(0), Real(step));
    assert_eq!(unit_interval::<Real>(2047), Real(step));
    assert_eq!(unit_interval::<Real>(2048), Real(2.0 * step));
    assert_eq!(unit_interval::<Real>(1 << 63), Real(0.5 + step));
    assert_eq!(unit_interval::<Real>(u64::MAX), Real(1.0));
}

#[test]
fn standard_normal_is_the_box_muller_transform() {
    assert_eq!(standard_normal::<Real>(u64::MAX, 12345), Real(0.0));
    let far = standard_normal::<Real>(0, u64::MAX);
    let radius = (0.0 - 2.0 * (1.0f64 / 9007199254740992.0).ln()).sqrt();
    assert_eq!(far, Real(radius * std::f64::consts::TAU.cos()));
    assert!((far.0 - (106.0 * std::f64::consts::LN_2).sqrt()).abs() < 1e-12);
    let u1 = ((0x8000_0000_0000_0000u64 >> 11) + 1) as f64 / 9007199254740992.0;
    let u2 = ((0x4000_0000_0000_0000u64 >> 11) + 1) as f64 / 9007199254740992.0;
    let expected = (0.0 - 2.0 * u1.ln()).sqrt() * (std::f64::consts::TAU * u2).cos();
    assert_eq!(
        standard_normal::<Real>(0x8000_0000_0000_0000, 0x4000_0000_0000_0000),
        Real(expected)
    );
}

#[test]
fn standard_normal_draws_look_standard_normal() {
    let mut rng = SmallRng::seed_from_u64(2024);
    let n = 200_000;
    let mut sum = 0.0;
    let mut squares = 0.0;
    for _ in 0..n {
        let xi = standard_normal::<Real>(rng.next_u64(), rng.next_u64()).0;
        assert!(xi.is_finite());
        sum += xi;
        squares += xi * xi;
    }
    let mean = sum / n as f64;
    let variance = squares / n as f64 - mean * mean;
    assert!(mean.abs() < 0.02, "mean {mean}");
    assert!((variance - 1.0).abs() < 0.02, "variance {variance}");
}

#[test]
fn refill_draws_from_the_generator() {
    let mut ctx: NoiseContext<Real> = NoiseContext::new(3);
    let mut rng = SmallRng::seed_from_u64(99);
    let mut twin = rng.clone();
    ctx.refill(&mut rng);
    let expected: Vec<f64> = (0..3)
        .map(|_| {
            let first = twin.next_u64();
            let second = twin.next_u64();
            standard_normal::<Real>(first, second).0
        })
        .collect();
    assert_eq!(floats(&ctx.draws), expected);
    assert_eq!(rng, twin);
    assert!(expected.iter().any(|xi| *xi != 0.0));
}

#[test]
fn noise_moves_every_entry_by_its_draw() {
    let mut gs = toy_initial(1e-5);
    let before = floats(&gs.state);
    let mut ctx = NoiseContext::new(4);
    let mut rng = SmallRng::seed_from_u64(5);
    apply_noise_inplace(&mut gs, Noise::demographic_gaussian(Real(0.1)), Real(0.01), &mut ctx, &mut rng);
    let expected: Vec<f64> = (0..4)
        .map(|i| before[i] + 0.1 * before[i].sqrt() * 0.01f64.sqrt() * ctx.draws[i].0)
        .collect();
    assert_eq!(floats(&gs.state), expected);
    assert_ne!(floats(&gs.state), before);
    assert_eq!(gs.mass, Real(1.0));
    assert_eq!(gs.time, 0);
}

#[test]
fn save_interval_of_zero_is_refused() {
    let counter = AtomicUsize::new(77);
    let result = solve(
        1,
        toy_initial(1e-5),
        &toy_matrix(),
        None,
        Noise::none(),
        Real(1e-3),
        10,
        0,
        Some(&counter),
    );
    assert!(matches!(result, Err(SolveError::InvalidSaveInterval)));
    assert_eq!(counter.load(Ordering::Relaxed), 77);
    let result = solve(
        1,
        toy_initial(1e-5),
        &toy_matrix(),
        None,
        Noise::demographic_gaussian(Real(0.1)),
        Real(1e-3),
        0,
        0,
        None,
    );
    assert_eq!(result.err(), Some(SolveError::InvalidSaveInterval));
}

#[test]
fn errors_say_what_went_wrong() {
    assert_eq!(SolveError::InvalidSaveInterval.message(), "save_interval must be >= 1");
    assert_eq!(SolveError::EntropyUnavailable.message(), "no entropy to seed the random source");
}

#[test]
fn solve_records_step_zero_and_every_save_point() {
    let (last, series) = run_quiet(toy_initial(1e-5), 25, 10);
    assert_eq!(series.epoch, 1);
    assert!(matches!(series.mode, Mode::Frequency { cutoff } if cutoff == Real(1e-5)));
    let times: Vec<usize> = series.samples.iter().map(|sample| sample.time).collect();
    assert_eq!(times, vec![0, 10, 20]);
    assert_eq!(last.time, 25);
    assert_eq!(last.state.len(), 4);
    let (last, series) = run_quiet(toy_initial(1e-5), 30, 10);
    let times: Vec<usize> = series.samples.iter().map(|sample| sample.time).collect();
    assert_eq!(times, vec![0, 10, 20, 30]);
    assert_eq!(series.samples[3].state, last.state);
    assert_eq!(series.samples[3].mass, last.mass);
    let (_, series) = run_quiet(toy_initial(1e-5), 3, 1);
    assert_eq!(series.samples.len(), 4);
    let (_, series) = run_quiet(toy_initial(1e-5), 3, 4);
    assert_eq!(series.samples.len(), 1);
}

#[test]
fn solve_without_steps_returns_the_sanitized_initial_state() {
    let raw = SystemState {
        mode: Mode::Frequency { cutoff: Real(0.02) },
        time: 40,
        state: reals(&[0.01, 0.98, 0.01]),
        space: None,
        mass: Real(0.0),
    };
    let (last, series) =
        solve(3, raw, &matrix(&[&[0.0; 3], &[0.0; 3], &[0.0; 3]]), None, Noise::none(), Real(0.1), 0, 5, None)
            .unwrap();
    assert_eq!(floats(&last.state), vec![0.0, 1.0, 0.0]);
    assert_eq!(last.mass, Real(1.0));
    assert_eq!(last.time, 40);
    assert_eq!(series.epoch, 3);
    assert_eq!(series.samples.len(), 1);
    assert_eq!(series.samples[0].time, 40);
    assert_eq!(floats(&series.samples[0].state), vec![0.0, 1.0, 0.0]);
}

#[test]
fn solve_of_no_taxa() {
    let initial = SystemState::from_arrays(Mode::Frequency { cutoff: Real(0.0) }, 0, reals(&[]), None);
    let (last, series) =
        solve(2, initial, &matrix(&[]), None, Noise::none(), Real(0.1), 7, 3, None).unwrap();
    assert!(last.state.is_empty());
    assert_eq!(last.time, 7);
    assert_eq!(last.mass, Real(1.0));
    let times: Vec<usize> = series.samples.iter().map(|sample| sample.time).collect();
    assert_eq!(times, vec![0, 3, 6]);
}

#[test]
fn integrate_needs_no_generator_when_the_noise_is_off() {
    let quiet = integrate(
        1,
        toy_initial(1e-5),
        &toy_matrix(),
        Some(&toy_growth()),
        Noise::none(),
        Real(1e-3),
        12,
        4,
        None,
        None,
    );
    let seeded = integrate(
        1,
        toy_initial(1e-5),
        &toy_matrix(),
        Some(&toy_growth()),
        Noise::none(),
        Real(1e-3),
        12,
        4,
        None,
        Some(SmallRng::seed_from_u64(1)),
    );
    let solved = run_quiet(toy_initial(1e-5), 12, 4);
    assert_eq!(quiet.0.state, solved.0.state);
    assert_eq!(seeded.0.state, solved.0.state);
    assert_eq!(quiet.1.samples.len(), 4);
}

#[test]
fn solve_follows_step_sanitize_step() {
    let (last, series) = run_quiet(toy_initial(1e-5), 6, 3);
    let g = toy_growth();
    let v = toy_matrix();
    let mut current = toy_initial(1e-5);
    current.sanitize();
    let mut sc = Rk4Scratch::new(4);
    let mut trail = vec![floats(&current.state)];
    for step in 1..=6 {
        let mut next = reals(&[0.0; 4]);
        rk4_step_inplace_raw(&current.state, &g, &v, Real(1e-3), &mut sc, &mut next);
        current.state = next;
        current.sanitize();
        current.time = step;
        trail.push(floats(&current.state));
    }
    assert_eq!(floats(&last.state), trail[6]);
    assert_eq!(floats(&series.samples[0].state), trail[0]);
    assert_eq!(floats(&series.samples[1].state), trail[3]);
    assert_eq!(floats(&series.samples[2].state), trail[6]);
    assert_ne!(trail[0], trail[6]);
    let sum: f64 = last.state.iter().map(|x| x.0).sum();
    assert!((sum - 1.0).abs() < 1e-12);
}

#[test]
fn solve_continues_from_the_time_of_the_initial_state() {
    let mut initial = toy_initial(1e-5);
    initial.time = 1000;
    let (last, series) = run_quiet(initial, 20, 10);
    let times: Vec<usize> = series.samples.iter().map(|sample| sample.time).collect();
    assert_eq!(times, vec![1000, 1010, 1020]);
    assert_eq!(last.time, 1020);
}

#[test]
fn solve_defaults_to_no_growth() {
    let zeros = reals(&[0.0; 4]);
    let with = solve(1, toy_initial(1e-5), &toy_matrix(), Some(&zeros), Noise::none(), Real(1e-2), 50, 10, None)
        .unwrap();
    let without =
        solve(1, toy_initial(1e-5), &toy_matrix(), None, Noise::none(), Real(1e-2), 50, 10, None).unwrap();
    assert_eq!(with.0.state, without.0.state);
    let grown = run_quiet(toy_initial(1e-5), 50, 10);
    assert_ne!(grown.0.state, without.0.state);
}

#[test]
fn solve_reports_progress() {
    let counter = AtomicUsize::new(0);
    solve(
        1,
        toy_initial(1e-5),
        &toy_matrix(),
        None,
        Noise::none(),
        Real(1e-3),
        37,
        5,
        Some(&counter),
    )
    .unwrap();
    assert_eq!(counter.load(Ordering::Relaxed), 37);
    let counter = AtomicUsize::new(99);
    solve(1, toy_initial(1e-5), &toy_matrix(), None, Noise::none(), Real(1e-3), 0, 5, Some(&counter))
        .unwrap();
    assert_eq!(counter.load(Ordering::Relaxed), 0);
}

#[test]
fn solve_is_deterministic_without_noise() {
    let first = run_quiet(toy_initial(1e-5), 200, 50);
    let second = run_quiet(toy_initial(1e-5), 200, 50);
    assert_eq!(first.0.state, second.0.state);
    for (a, b) in first.1.samples.iter().zip(second.1.samples.iter()) {
        assert_eq!(a.state, b.state);
        assert_eq!(a.time, b.time);
        assert_eq!(a.mass, b.mass);
    }
}

#[test]
fn the_spatial_field_stays_with_its_buffer() {
    let mut initial = toy_initial(1e-5);
    initial.space = Some(Field { shape: vec![2], cells: reals(&[1.0, 2.0]) });
    let (last, series) = run_quiet(initial.clone(), 3, 1);
    assert!(last.space.is_none());
    let present: Vec<bool> = series.samples.iter().map(|sample| sample.space.is_some()).collect();
    assert_eq!(present, vec![true, false, true, false]);
    let (last, _) = run_quiet(initial, 4, 1);
    assert_eq!(floats(&last.space.unwrap().cells), vec![1.0, 2.0]);
}

#[test]
fn integrate_with_a_seeded_generator_is_reproducible() {
    let run = |seed: u64| {
        integrate(
            1,
            toy_initial(1e-5),
            &toy_matrix(),
            Some(&toy_growth()),
            Noise::proportional_gaussian(Real(0.05)),
            Real(1e-3),
            100,
            25,
            None,
            Some(SmallRng::seed_from_u64(seed)),
        )
    };
    let (first, first_series) = run(11);
    let (second, _) = run(11);
    let (third, _) = run(12);
    assert_eq!(first.state, second.state);
    assert_ne!(first.state, third.state);
    assert_eq!(first_series.samples.len(), 5);
    assert_eq!(first.time, 100);
    let quiet = run_quiet(toy_initial(1e-5), 100, 25);
    assert_ne!(first.state, quiet.0.state);
}

#[test]
fn recorded_snapshots_are_not_sanitized_after_the_noise() {
    let (last, series) = integrate(
        1,
        toy_initial(1e-5),
        &toy_matrix(),
        Some(&toy_growth()),
        Noise::demographic_gaussian(Real(0.05)),
        Real(1e-3),
        10,
        10,
        None,
        Some(SmallRng::seed_from_u64(3)),
    );
    let sum: f64 = last.state.iter().map(|x| x.0).sum();
    assert!(sum != 1.0);
    assert!((sum - 1.0).abs() < 0.1);
    assert_eq!(last.mass, Real(1.0));
    assert_eq!(series.samples[1].state, last.state);
    let first: f64 = series.samples[0].state.iter().map(|x| x.0).sum();
    assert!((first - 1.0).abs() < 1e-15);
}

#[test]
fn epochs_chain() {
    let mut gs = toy_initial(1e-5);
    let mut finals: Vec<SystemState<Real>> = Vec::new();
    let mut openings: Vec<(usize, Vec<f64>)> = Vec::new();
    for epoch in 1..=3 {
        let (last, series) =
            solve(epoch, gs, &toy_matrix(), Some(&toy_growth()), Noise::none(), Real(1e-3), 40, 10, None)
                .unwrap();
        assert_eq!(series.epoch, epoch);
        openings.push((series.samples[0].time, floats(&series.samples[0].state)));
        finals.push(last.clone());
        gs = last;
    }
    assert_eq!(openings[0].0, 0);
    for k in 0..2 {
        let mut handed_over = finals[k].clone();
        assert_eq!(openings[k + 1].0, handed_over.time);
        handed_over.sanitize();
        assert_eq!(openings[k + 1].1, floats(&handed_over.state));
        for (opened, ended) in openings[k + 1].1.iter().zip(finals[k].state.iter()) {
            assert!((opened - ended.0).abs() < 1e-15);
        }
    }
    assert_eq!(finals[2].time, 120);
}

#[test]
fn a_run_starts_well_mixed() {
    let run = EpochSequence::well_mixed(Real(1e-5), 4, 3);
    assert_eq!(run.completed, 0);
    assert_eq!(run.num_epochs, 3);
    assert!(!run.is_finished());
    assert_eq!(floats(&run.state.state), vec![0.25; 4]);
    assert_eq!(run.state.mass, Real(1.0));
    assert_eq!(run.state.time, 0);
    assert!(run.state.space.is_none());
    assert!(matches!(run.state.mode, Mode::Frequency { cutoff } if cutoff == Real(1e-5)));
    assert!(EpochSequence::well_mixed(Real(1e-5), 4, 0).is_finished());
    let hollow = EpochSequence::well_mixed(Real(1e-5), 0, 1);
    assert!(hollow.state.state.is_empty());
    assert_eq!(hollow.state.mass, Real(0.0));
}

#[test]
fn a_run_hands_every_epoch_the_state_the_last_one_ended_with() {
    let v = toy_matrix();
    let g = toy_growth();
    let mut run = EpochSequence::starting_from(toy_initial(1e-5), 3);
    let mut handed_over = run.state.clone();
    let mut epochs = Vec::new();
    while !run.is_finished() {
        let (next, series) = run
            .advance(&v, Some(&g), Noise::proportional_gaussian(Real(0.05)), Real(1e-3), 40, 10, None)
            .unwrap();
        epochs.push(series.epoch);
        assert_eq!(series.samples[0].time, handed_over.time);
        handed_over.sanitize();
        assert_eq!(series.samples[0].state, handed_over.state);
        assert_eq!(series.samples[4].state, next.state.state);
        assert_eq!(next.state.time, 40 * next.completed);
        handed_over = next.state.clone();
        run = next;
    }
    assert_eq!(epochs, vec![1, 2, 3]);
    assert_eq!(run.completed, 3);
    assert_eq!(run.state.time, 120);
}

#[test]
fn a_run_refuses_a_save_interval_of_zero() {
    let run = EpochSequence::well_mixed(Real(1e-5), 4, 2);
    let result = run.advance(&toy_matrix(), None, Noise::none(), Real(1e-3), 10, 0, None);
    assert!(matches!(result, Err(SolveError::InvalidSaveInterval)));
}

#[test]
fn no_noise() {
    let (last, series) = solve(
        1,
        toy_initial(1e-15),
        &toy_matrix(),
        Some(&toy_growth()),
        Noise::none(),
        Real(1e-3),
        50_000,
        10_000,
        None,
    )
    .unwrap();
    let times: Vec<usize> = series.samples.iter().map(|sample| sample.time).collect();
    assert_eq!(times, vec![0, 10_000, 20_000, 30_000, 40_000, 50_000]);
    assert_eq!(last.time, 50_000);
    for sample in &series.samples {
        let sum: f64 = sample.state.iter().map(|x| x.0).sum();
        assert!((sum - 1.0).abs() < 1e-12);
        assert!(sample.state.iter().all(|x| x.0 >= 0.0));
        assert_eq!(sample.mass, Real(1.0));
    }
}

#[test]
fn proportional_gaussian() {
    let (last, series) = solve(
        1,
        toy_initial(1e-15),
        &toy_matrix(),
        Some(&toy_growth()),
        Noise::proportional_gaussian(Real(0.05)),
        Real(1e-3),
        50_000,
        10_000,
        None,
    )
    .unwrap();
    assert_eq!(series.samples.len(), 6);
    assert_eq!(last.time, 50_000);
    assert_eq!(last.state.len(), 4);
    assert_eq!(series.samples[5].state, last.state);
}

#[test]
fn demographic_gaussian() {
    let (last, series) = solve(
        1,
        toy_initial(1e-15),
        &toy_matrix(),
        Some(&toy_growth()),
        Noise::demographic_gaussian(Real(0.05)),
        Real(1e-3),
        50_000,
        10_000,
        None,
    )
    .unwrap();
    assert_eq!(series.samples.len(), 6);
    assert_eq!(last.time, 50_000);
    assert_eq!(last.state.len(), 4);
    assert_eq!(series.samples[5].state, last.state);
}

#[test]
fn time_series_add_copies_the_snapshot() {
    let mut series = SystemStateTimeSeries::empty(1, Mode::Frequency { cutoff: Real(1e-5) });
    assert_eq!(series.epoch, 1);
    assert!(series.samples.is_empty());
    let mut gs = SystemState::from_arrays(Mode::Frequency { cutoff: Real(1e-5) }, 0, reals(&[1.0]), None);
    series.add(&gs);
    gs.state[0] = Real(0.5);
    gs.time = 8;
    gs.space = Some(Field { shape: vec![1], cells: reals(&[4.0]) });
    series.add(&gs);
    assert_eq!(series.samples.len(), 2);
    assert_eq!(series.samples[0].time, 0);
    assert_eq!(floats(&series.samples[0].state), vec![1.0]);
    assert!(series.samples[0].space.is_none());
    assert_eq!(series.samples[0].mass, Real(1.0));
    assert_eq!(series.samples[1].time, 8);
    assert_eq!(floats(&series.samples[1].state), vec![0.5]);
    assert_eq!(floats(&series.samples[1].space.as_ref().unwrap().cells), vec![4.0]);
    let copy = series.clone();
    series.samples[0].state[0] = Real(9.0);
    assert_eq!(floats(&copy.samples[0].state), vec![1.0]);
    assert_eq!(copy.samples.len(), 2);
}
