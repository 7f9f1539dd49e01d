//! The replicator vector field and the classical four-stage Runge-Kutta step.

use vstd::prelude::*;
use vstd::arithmetic::div_mod::{lemma_fundamental_div_mod, lemma_fundamental_div_mod_converse};
use rand::rngs::SmallRng;
use std::sync::atomic::AtomicUsize;
use crate::scalar::{at_most, le, Scalar};
use crate::solvers::non_spatial::noise::{
    apply_noise_inplace,
    generator_from_os,
    is_normal_draw,
    lemma_noise_off_is_identity,
    perturbed,
    Noise,
    NoiseContext,
};
use crate::solvers::non_spatial::progress::report_progress;
use crate::state::system_state::{
    sanitized,
    sanitized_mass,
    sanitized_state,
    space_view,
    FieldView,
    Mode,
    StateView,
    SystemState,
};
use crate::state::time_series::{record_of, SystemStateTimeSeries, TimeSeriesView};
use crate::vector::{duplicate, filled, zeros};

verus! {

/// The rows of a matrix held as a vector of rows.
pub open spec fn matrix_rows<T>(m: &Vec<Vec<T>>) -> Seq<Seq<T>> {
    Seq::new(m@.len(), |i: int| m@[i]@)
}

/// `v` has `d` rows of `d` entries each.
pub open spec fn is_square<T>(v: Seq<Seq<T>>, d: nat) -> bool {
    &&& v.len() == d
    &&& forall|i: int| 0 <= i < d ==> (#[trigger] v[i]).len() == d
}

/// The first `k` terms of the product of a matrix row with the state,
/// accumulated from zero in index order.
pub open spec fn row_product<T: Scalar>(row: Seq<T>, nu: Seq<T>, k: nat) -> T
    decreases k,
{
    if k == 0 {
        T::zero_spec()
    } else {
        row_product(row, nu, (k - 1) as nat).add_spec(row[k - 1].mul_spec(nu[k - 1]))
    }
}

/// The fitness of every taxon from interactions alone: the matrix applied to
/// the state.
pub open spec fn interaction<T: Scalar>(v: Seq<Seq<T>>, nu: Seq<T>) -> Seq<T> {
    Seq::new(nu.len(), |i: int| row_product(v[i], nu, nu.len()))
}

/// The first `k` terms of the population mean fitness: each taxon's share
/// times its growth plus interaction fitness, accumulated from zero.
pub open spec fn mean_fitness<T: Scalar>(nu: Seq<T>, g: Seq<T>, w: Seq<T>, k: nat) -> T
    decreases k,
{
    if k == 0 {
        T::zero_spec()
    } else {
        mean_fitness(nu, g, w, (k - 1) as nat).add_spec(
            nu[k - 1].mul_spec(g[k - 1].add_spec(w[k - 1])),
        )
    }
}

/// How far the fitness of every taxon lies above the population mean.
pub open spec fn drift<T: Scalar>(nu: Seq<T>, g: Seq<T>, v: Seq<Seq<T>>) -> Seq<T> {
    let w = interaction(v, nu);
    let upsilon = mean_fitness(nu, g, w, nu.len());
    Seq::new(nu.len(), |i: int| g[i].add_spec(w[i]).sub_spec(upsilon))
}

/// The replicator vector field: every taxon grows in proportion to its share
/// and to its fitness above the mean.
pub open spec fn rhs<T: Scalar>(nu: Seq<T>, g: Seq<T>, v: Seq<Seq<T>>) -> Seq<T> {
    Seq::new(nu.len(), |i: int| nu[i].mul_spec(drift(nu, g, v)[i]))
}

/// The state moved by `h` along the slope `k`.
pub open spec fn advanced<T: Scalar>(nu: Seq<T>, k: Seq<T>, h: T) -> Seq<T> {
    Seq::new(nu.len(), |i: int| nu[i].add_spec(h.mul_spec(k[i])))
}

/// One half, as the quotient of one and two.
pub open spec fn half<T: Scalar>() -> T {
    T::one_spec().div_spec(T::from_u64_spec(2))
}

/// The weighted sum of the four stage slopes for one taxon.
pub open spec fn blended<T: Scalar>(k1: T, k2: T, k3: T, k4: T) -> T {
    let two = T::from_u64_spec(2);
    k1.add_spec(two.mul_spec(k2)).add_spec(two.mul_spec(k3)).add_spec(k4)
}

/// A raw entry with anything not finite or not positive replaced by zero.
pub open spec fn clamped<T: Scalar>(x: T) -> T {
    if !x.is_finite_spec() || at_most(x, T::zero_spec()) {
        T::zero_spec()
    } else {
        x
    }
}

/// The raw state one Runge-Kutta step of size `dt` after `nu`.
pub open spec fn rk4_step<T: Scalar>(nu: Seq<T>, g: Seq<T>, v: Seq<Seq<T>>, dt: T) -> Seq<T> {
    let half_dt = half::<T>().mul_spec(dt);
    let k1 = rhs(nu, g, v);
    let k2 = rhs(advanced(nu, k1, half_dt), g, v);
    let k3 = rhs(advanced(nu, k2, half_dt), g, v);
    let k4 = rhs(advanced(nu, k3, dt), g, v);
    Seq::new(
        nu.len(),
        |i: int|
            clamped(
                nu[i].add_spec(
                    dt.div_spec(T::from_u64_spec(6)).mul_spec(blended(k1[i], k2[i], k3[i], k4[i])),
                ),
            ),
    )
}

/// Buffers that one trajectory allocates once and every step reuses: the four
/// stage slopes, the intermediate state, the interaction fitness and the
/// drift.
pub struct Rk4Scratch<T> {
    pub k1: Vec<T>,
    pub k2: Vec<T>,
    pub k3: Vec<T>,
    pub k4: Vec<T>,
    pub tmp: Vec<T>,
    pub w: Vec<T>,
    pub drift: Vec<T>,
}

impl<T: Scalar> Rk4Scratch<T> {
    /// Every buffer holds one entry per taxon.
    pub open spec fn sized(&self, d: nat) -> bool {
        &&& self.k1@.len() == d
        &&& self.k2@.len() == d
        &&& self.k3@.len() == d
        &&& self.k4@.len() == d
        &&& self.tmp@.len() == d
        &&& self.w@.len() == d
        &&& self.drift@.len() == d
    }

    /// Buffers for a state of `d` taxa, all zero.
    pub fn new(d: usize) -> (sc: Self)
        ensures
            sc.sized(d as nat),
            sc.k1@ == filled(d as nat, T::zero_spec()),
            sc.k2@ == filled(d as nat, T::zero_spec()),
            sc.k3@ == filled(d as nat, T::zero_spec()),
            sc.k4@ == filled(d as nat, T::zero_spec()),
            sc.tmp@ == filled(d as nat, T::zero_spec()),
            sc.w@ == filled(d as nat, T::zero_spec()),
            sc.drift@ == filled(d as nat, T::zero_spec()),
    {
        Rk4Scratch {
            k1: zeros(d),
            k2: zeros(d),
            k3: zeros(d),
            k4: zeros(d),
            tmp: zeros(d),
            w: zeros(d),
            drift: zeros(d),
        }
    }
}

/// Evaluates the replicator vector field at `nu` into `out`, leaving the
/// interaction fitness in `w` and the drift in `drift`.
pub fn rhs_inplace<T: Scalar>(
    nu: &Vec<T>,
    growth_vector: &Vec<T>,
    interaction_matrix: &Vec<Vec<T>>,
    w: &mut Vec<T>,
    drift: &mut Vec<T>,
    out: &mut Vec<T>,
)
    requires
        growth_vector@.len() == nu@.len(),
        is_square(matrix_rows(interaction_matrix), nu@.len()),
        old(w)@.len() == nu@.len(),
        old(drift)@.len() == nu@.len(),
        old(out)@.len() == nu@.len(),
    ensures
        final(w)@ == interaction(matrix_rows(interaction_matrix), nu@),
        final(drift)@ == self::drift(nu@, growth_vector@, matrix_rows(interaction_matrix)),
        final(out)@ == rhs(nu@, growth_vector@, matrix_rows(interaction_matrix)),
{
    let d = nu.len();
    let ghost v = matrix_rows(interaction_matrix);

    let mut i: usize = 0;
    while i < d
        invariant
            i <= d,
            d == nu@.len(),
            w@.len() == d,
            v == matrix_rows(interaction_matrix),
            is_square(v, d as nat),
            forall|r: int| 0 <= r < i ==> w@[r] == row_product(v[r], nu@, d as nat),
        decreases d - i,
    {
        let row = &interaction_matrix[i];
        assert(row@ == v[i as int]);
        let mut acc = T::zero();
        let mut j: usize = 0;
        while j < d
            invariant
                j <= d,
                d == nu@.len(),
                row@.len() == d,
                acc == row_product(row@, nu@, j as nat),
            decreases d - j,
        {
            acc = acc.add(row[j].mul(nu[j]));
            j += 1;
        }
        w[i] = acc;
        i += 1;
    }
    assert(w@ =~= interaction(v, nu@));

    let mut upsilon = T::zero();
    let mut i: usize = 0;
    while i < d
        invariant
            i <= d,
            d == nu@.len(),
            growth_vector@.len() == d,
            w@.len() == d,
            upsilon == mean_fitness(nu@, growth_vector@, w@, i as nat),
        decreases d - i,
    {
        upsilon = upsilon.add(nu[i].mul(growth_vector[i].add(w[i])));
        i += 1;
    }

    let mut i: usize = 0;
    while i < d
        invariant
            i <= d,
            d == nu@.len(),
            growth_vector@.len() == d,
            w@.len() == d,
            drift@.len() == d,
            forall|r: int|
                0 <= r < i ==> drift@[r] == growth_vector@[r].add_spec(w@[r]).sub_spec(upsilon),
        decreases d - i,
    {
        drift[i] = growth_vector[i].add(w[i]).sub(upsilon);
        i += 1;
    }
    assert(drift@ =~= self::drift(nu@, growth_vector@, v));

    let mut i: usize = 0;
    while i < d
        invariant
            i <= d,
            d == nu@.len(),
            drift@.len() == d,
            out@.len() == d,
            forall|r: int| 0 <= r < i ==> out@[r] == nu@[r].mul_spec(drift@[r]),
        decreases d - i,
    {
        out[i] = nu[i].mul(drift[i]);
        i += 1;
    }
    assert(out@ =~= rhs(nu@, growth_vector@, v));
}

/// Moves `nu` by `h` along the slope `k`, into `tmp`.
fn advance_into<T: Scalar>(nu: &Vec<T>, k: &Vec<T>, h: T, tmp: &mut Vec<T>)
    requires
        k@.len() == nu@.len(),
        old(tmp)@.len() == nu@.len(),
    ensures
        final(tmp)@ == advanced(nu@, k@, h),
{
    let d = nu.len();
    let mut i: usize = 0;
    while i < d
        invariant
            i <= d,
            d == nu@.len(),
            k@.len() == d,
            tmp@.len() == d,
            forall|r: int| 0 <= r < i ==> tmp@[r] == nu@[r].add_spec(h.mul_spec(k@[r])),
        decreases d - i,
    {
        tmp[i] = nu[i].add(h.mul(k[i]));
        i += 1;
    }
    assert(tmp@ =~= advanced(nu@, k@, h));
}

/// One explicit Runge-Kutta step of size `dt` from `nu`, written into `out`.
///
/// The result is raw: entries that come out not finite or not positive are
/// set to zero, but neither the simplex nor a carrying capacity is enforced.
/// The step allocates nothing; all intermediate vectors live in `sc`.
pub fn rk4_step_inplace_raw<T: Scalar>(
    nu: &Vec<T>,
    growth_vector: &Vec<T>,
    interaction_matrix: &Vec<Vec<T>>,
    dt: T,
    sc: &mut Rk4Scratch<T>,
    out: &mut Vec<T>,
)
    requires
        growth_vector@.len() == nu@.len(),
        is_square(matrix_rows(interaction_matrix), nu@.len()),
        old(sc).sized(nu@.len()),
        old(out)@.len() == nu@.len(),
    ensures
        final(out)@ == rk4_step(nu@, growth_vector@, matrix_rows(interaction_matrix), dt),
        final(sc).sized(nu@.len()),
{
    let d = nu.len();
    let two = T::from_u64(2);
    let half_dt = T::one().div(two).mul(dt);
    let dt_over_6 = dt.div(T::from_u64(6));

    rhs_inplace(nu, growth_vector, interaction_matrix, &mut sc.w, &mut sc.drift, &mut sc.k1);

    advance_into(nu, &sc.k1, half_dt, &mut sc.tmp);
    rhs_inplace(&sc.tmp, growth_vector, interaction_matrix, &mut sc.w, &mut sc.drift, &mut sc.k2);

    advance_into(nu, &sc.k2, half_dt, &mut sc.tmp);
    rhs_inplace(&sc.tmp, growth_vector, interaction_matrix, &mut sc.w, &mut sc.drift, &mut sc.k3);

    advance_into(nu, &sc.k3, dt, &mut sc.tmp);
    rhs_inplace(&sc.tmp, growth_vector, interaction_matrix, &mut sc.w, &mut sc.drift, &mut sc.k4);

    let ghost next = rk4_step(nu@, growth_vector@, matrix_rows(interaction_matrix), dt);
    let zero = T::zero();
    let mut i: usize = 0;
    while i < d
        invariant
            i <= d,
            d == nu@.len(),
            sc.sized(d as nat),
            out@.len() == d,
            zero == T::zero_spec(),
            two == T::from_u64_spec(2),
            dt_over_6 == dt.div_spec(T::from_u64_spec(6)),
            next == rk4_step(nu@, growth_vector@, matrix_rows(interaction_matrix), dt),
            forall|r: int|
                0 <= r < d ==> next[r] == clamped(
                    nu@[r].add_spec(
                        dt_over_6.mul_spec(blended(sc.k1@[r], sc.k2@[r], sc.k3@[r], sc.k4@[r])),
                    ),
                ),
            forall|r: int| 0 <= r < i ==> out@[r] == next[r],
        decreases d - i,
    {
        let incr = dt_over_6.mul(
            sc.k1[i].add(two.mul(sc.k2[i])).add(two.mul(sc.k3[i])).add(sc.k4[i]),
        );
        let mut val = nu[i].add(incr);
        if !val.is_finite() || le(val, zero) {
            val = zero;
        }
        out[i] = val;
        i += 1;
    }
    assert(out@ =~= next);
}

/// Why a trajectory could not be computed.
#[derive(Clone, Copy, Debug, PartialEq, Eq)]
pub enum SolveError {
    /// The save interval is zero: no step could ever be a save point.
    InvalidSaveInterval,
    /// The noise needs a random source, and the operating system gave no
    /// entropy to seed one.
    EntropyUnavailable,
}

impl SolveError {
    /// What went wrong, in words.
    pub fn message(&self) -> (text: &'static str)
        ensures
            text@ == match *self {
                SolveError::InvalidSaveInterval => "save_interval must be >= 1"@,
                SolveError::EntropyUnavailable => "no entropy to seed the random source"@,
            },
    {
        match self {
            SolveError::InvalidSaveInterval => "save_interval must be >= 1",
            SolveError::EntropyUnavailable => "no entropy to seed the random source",
        }
    }
}

/// The growth vector a trajectory runs with: the given one, or all zeros.
pub open spec fn growth_or_zero<T: Scalar>(growth_vector: Option<&Vec<T>>, d: nat) -> Seq<T> {
    match growth_vector {
        Some(g) => g@,
        None => filled(d, T::zero_spec()),
    }
}

/// The snapshot `k` steps into a trajectory that starts from `initial` and
/// perturbs step `j` (counted from zero) with the draws `draws[j]`.
///
/// Step zero is the sanitized initial snapshot. Every later one is the raw
/// Runge-Kutta step from its predecessor, sanitized, then perturbed and not
/// sanitized again. The trajectory alternates between two buffers, and only
/// the one that came with the initial snapshot carries its spatial field: the
/// field shows after an even number of steps, none after an odd number.
pub open spec fn state_after<T: Scalar>(
    initial: StateView<T>,
    g: Seq<T>,
    v: Seq<Seq<T>>,
    noise: Noise<T>,
    dt: T,
    draws: Seq<Seq<T>>,
    k: nat,
) -> StateView<T>
    decreases k,
{
    if k == 0 {
        sanitized(initial)
    } else {
        let previous = state_after(initial, g, v, noise, dt, draws, (k - 1) as nat);
        let raw = rk4_step(previous.state, g, v, dt);
        StateView {
            mode: initial.mode,
            time: (initial.time + k) as usize,
            state: perturbed(sanitized_state(initial.mode, raw), noise, dt, draws[k - 1]),
            space: if k % 2 == 1 {
                None
            } else {
                initial.space
            },
            mass: sanitized_mass(initial.mode, raw),
        }
    }
}

/// What one epoch yields, given the draws that perturbed its steps: the
/// snapshot after the last step, and a time series that holds the snapshot of
/// step zero and of every step that is a multiple of the save interval.
/// Unless the noise is off, every draw is a standard normal one.
pub open spec fn epoch_outcome<T: Scalar>(
    epoch: usize,
    initial: StateView<T>,
    g: Seq<T>,
    v: Seq<Seq<T>>,
    noise: Noise<T>,
    dt: T,
    num_steps: nat,
    save_interval: nat,
    draws: Seq<Seq<T>>,
    last: StateView<T>,
    series: TimeSeriesView<T>,
) -> bool {
    &&& draws.len() == num_steps
    &&& forall|j: int| 0 <= j < num_steps ==> (#[trigger] draws[j]).len() == initial.state.len()
    &&& !(noise is Off) ==> forall|j: int, i: int|
        0 <= j < num_steps && 0 <= i < initial.state.len() ==> is_normal_draw(
            #[trigger] draws[j][i],
        )
    &&& last == state_after(initial, g, v, noise, dt, draws, num_steps)
    &&& series.epoch == epoch
    &&& series.mode == initial.mode
    &&& series.samples.len() == num_steps / save_interval + 1
    &&& forall|j: int|
        0 <= j < series.samples.len() ==> #[trigger] series.samples[j] == record_of(
            state_after(initial, g, v, noise, dt, draws, (j * save_interval) as nat),
        )
}

/// What one epoch yields for some draws: the outcome is pinned down up to the
/// random numbers that the noise consumed.
pub open spec fn epoch_outcome_of_some_draws<T: Scalar>(
    epoch: usize,
    initial: StateView<T>,
    g: Seq<T>,
    v: Seq<Seq<T>>,
    noise: Noise<T>,
    dt: T,
    num_steps: nat,
    save_interval: nat,
    last: StateView<T>,
    series: TimeSeriesView<T>,
) -> bool {
    exists|draws: Seq<Seq<T>>|
        epoch_outcome(
            epoch,
            initial,
            g,
            v,
            noise,
            dt,
            num_steps,
            save_interval,
            draws,
            last,
            series,
        )
}

/// The snapshot after `k` steps depends only on the draws of those steps.
pub proof fn lemma_state_after_ignores_later_draws<T: Scalar>(
    initial: StateView<T>,
    g: Seq<T>,
    v: Seq<Seq<T>>,
    noise: Noise<T>,
    dt: T,
    draws: Seq<Seq<T>>,
    more: Seq<Seq<T>>,
    k: nat,
)
    requires
        k <= draws.len() <= more.len(),
        forall|j: int| 0 <= j < draws.len() ==> draws[j] == more[j],
    ensures
        state_after(initial, g, v, noise, dt, draws, k) == state_after(
            initial,
            g,
            v,
            noise,
            dt,
            more,
            k,
        ),
    decreases k,
{
    if k > 0 {
        lemma_state_after_ignores_later_draws(
            initial,
            g,
            v,
            noise,
            dt,
            draws,
            more,
            (k - 1) as nat,
        );
    }
}

/// Every snapshot of a trajectory has as many entries as the initial one.
pub proof fn lemma_state_after_keeps_length<T: Scalar>(
    initial: StateView<T>,
    g: Seq<T>,
    v: Seq<Seq<T>>,
    noise: Noise<T>,
    dt: T,
    draws: Seq<Seq<T>>,
    k: nat,
)
    ensures
        state_after(initial, g, v, noise, dt, draws, k).state.len() == initial.state.len(),
        state_after(initial, g, v, noise, dt, draws, k).mode == initial.mode,
        state_after(initial, g, v, noise, dt, draws, k).time == (initial.time + k) as usize,
    decreases k,
{
    if k > 0 {
        lemma_state_after_keeps_length(initial, g, v, noise, dt, draws, (k - 1) as nat);
    }
}

/// Step `step` is a save point exactly when one more multiple of the
/// interval fits into it than into the step before.
pub proof fn lemma_save_points(step: nat, interval: nat)
    requires
        step >= 1,
        interval >= 1,
    ensures
        step % interval == 0 ==> step / interval == ((step - 1) as nat) / interval + 1 && (step
            / interval) * interval == step,
        step % interval != 0 ==> step / interval == ((step - 1) as nat) / interval,
{
    let s = step as int;
    let v = interval as int;
    let q = (s - 1) / v;
    let r = (s - 1) % v;
    lemma_fundamental_div_mod(s - 1, v);
    lemma_fundamental_div_mod(s, v);
    if r + 1 < v {
        lemma_fundamental_div_mod_converse(s, v, q, r + 1);
    } else {
        assert(s == v * (q + 1) + 0) by (nonlinear_arith)
            requires
                s - 1 == v * q + r,
                r + 1 == v,
        ;
        lemma_fundamental_div_mod_converse(s, v, q + 1, 0);
        assert((q + 1) * v == s) by (nonlinear_arith)
            requires
                s == v * (q + 1) + 0,
        ;
    }
}

/// Runs one epoch: `num_steps` Runge-Kutta steps from `gs_i`, each followed
/// by `sanitize` and then by the noise, recording the snapshot of step zero
/// and of every step that is a multiple of `save_interval`.
///
/// `generator` is the random source of the noise; it is not touched when the
/// noise is off. Returns the snapshot after the last step and the recorded
/// time series. With the noise off both are fully determined by the
/// arguments; otherwise they are what the draws taken from the generator make
/// them.
pub fn integrate<T: Scalar>(
    epoch: usize,
    gs_i: SystemState<T>,
    interaction_matrix: &Vec<Vec<T>>,
    growth_vector: Option<&Vec<T>>,
    noise: Noise<T>,
    dt: T,
    num_steps: usize,
    save_interval: usize,
    progress_counter: Option<&AtomicUsize>,
    generator: Option<SmallRng>,
) -> (outcome: (SystemState<T>, SystemStateTimeSeries<T>))
    requires
        save_interval >= 1,
        is_square(matrix_rows(interaction_matrix), gs_i.state@.len()),
        growth_vector is Some ==> growth_vector->0@.len() == gs_i.state@.len(),
        gs_i.time + num_steps <= usize::MAX,
        noise is Off || generator is Some,
    ensures
        epoch_outcome_of_some_draws(
            epoch,
            gs_i@,
            growth_or_zero(growth_vector, gs_i.state@.len()),
            matrix_rows(interaction_matrix),
            noise,
            dt,
            num_steps as nat,
            save_interval as nat,
            outcome.0@,
            outcome.1@,
        ),
        noise is Off ==> epoch_outcome(
            epoch,
            gs_i@,
            growth_or_zero(growth_vector, gs_i.state@.len()),
            matrix_rows(interaction_matrix),
            noise,
            dt,
            num_steps as nat,
            save_interval as nat,
            filled(num_steps as nat, filled(gs_i.state@.len(), T::zero_spec())),
            outcome.0@,
            outcome.1@,
        ),
{
    let d = interaction_matrix.len();
    let ghost initial = gs_i@;
    let ghost v = matrix_rows(interaction_matrix);
    let ghost g = growth_or_zero(growth_vector, d as nat);
    let ghost interval = save_interval as nat;

    let growth_vector_owned: Vec<T> = match growth_vector {
        Some(given) => duplicate(given),
        None => zeros(d),
    };

    let mut generator = generator;
    let mut gs_curr = gs_i;
    gs_curr.sanitize();

    let mut series = SystemStateTimeSeries::empty(epoch, gs_curr.mode);
    series.add(&gs_curr);

    report_progress(progress_counter, 0);

    let mut gs_next = SystemState::empty(gs_curr.mode, 0, d, None);
    let mut sc = Rk4Scratch::new(d);
    let mut noise_ctx: NoiseContext<T> = NoiseContext::new(d);
    let ghost mut draws: Seq<Seq<T>> = Seq::empty();

    let start_time = gs_curr.time;
    let mut step: usize = 0;
    proof {
        assert(series@.samples.len() == 1);
        assert(series@.samples[0] == record_of(state_after(initial, g, v, noise, dt, draws, 0)));
        assert forall|j: int| 0 <= j < series@.samples.len() implies #[trigger] series@.samples[j]
            == record_of(state_after(initial, g, v, noise, dt, draws, (j * interval) as nat)) by {
            assert(j * interval == 0);
        }
        assert(0nat / interval == 0) by (nonlinear_arith)
            requires
                interval >= 1,
        ;
    }
    while step < num_steps
        invariant
            step <= num_steps,
            save_interval >= 1,
            interval == save_interval as nat,
            start_time == initial.time,
            start_time + num_steps <= usize::MAX,
            d == initial.state.len(),
            v == matrix_rows(interaction_matrix),
            is_square(v, d as nat),
            growth_vector_owned@ == g,
            g.len() == d,
            noise is Off || generator is Some,
            sc.sized(d as nat),
            noise_ctx.draws@.len() == d,
            noise is Off ==> noise_ctx.draws@ == filled(d as nat, T::zero_spec()),
            draws.len() == step,
            forall|j: int| 0 <= j < step ==> (#[trigger] draws[j]).len() == d,
            !(noise is Off) ==> forall|j: int, i: int|
                0 <= j < step && 0 <= i < d ==> is_normal_draw(#[trigger] draws[j][i]),
            noise is Off ==> draws == filled(step as nat, filled(d as nat, T::zero_spec())),
            gs_curr@ == state_after(initial, g, v, noise, dt, draws, step as nat),
            gs_next.mode == initial.mode,
            gs_next.state@.len() == d,
            space_view(gs_next.space) == if step % 2 == 0 {
                None::<FieldView<T>>
            } else {
                initial.space
            },
            series@.epoch == epoch,
            series@.mode == initial.mode,
            series@.samples.len() == step as nat / interval + 1,
            forall|j: int|
                0 <= j < series@.samples.len() ==> #[trigger] series@.samples[j] == record_of(
                    state_after(initial, g, v, noise, dt, draws, (j * interval) as nat),
                ),
            (series@.samples.len() - 1) * interval <= step,
        decreases num_steps - step,
    {
        let ghost before = draws;
        let ghost samples_before = series@.samples;
        proof {
            lemma_state_after_keeps_length(initial, g, v, noise, dt, draws, step as nat);
        }
        step += 1;

        rk4_step_inplace_raw(
            &gs_curr.state,
            &growth_vector_owned,
            interaction_matrix,
            dt,
            &mut sc,
            &mut gs_next.state,
        );
        gs_next.sanitize();
        match &mut generator {
            Some(rng) => {
                apply_noise_inplace(&mut gs_next, noise, dt, &mut noise_ctx, rng);
            },
            None => {
                assert(gs_next.state@ =~= perturbed(gs_next.state@, noise, dt, noise_ctx.draws@));
            },
        }
        gs_next.time = start_time + step;

        proof {
            draws = draws.push(noise_ctx.draws@);
            lemma_state_after_ignores_later_draws(
                initial,
                g,
                v,
                noise,
                dt,
                before,
                draws,
                (step - 1) as nat,
            );
            assert forall|j: int| 0 <= j < samples_before.len() implies #[trigger] samples_before[j]
                == record_of(
                state_after(initial, g, v, noise, dt, draws, (j * interval) as nat),
            ) by {
                assert(j * interval <= (samples_before.len() - 1) * interval) by (nonlinear_arith)
                    requires
                        0 <= j <= samples_before.len() - 1,
                        interval >= 1,
                ;
                assert(0 <= j * interval) by (nonlinear_arith)
                    requires
                        0 <= j,
                        interval >= 1,
                ;
                lemma_state_after_ignores_later_draws(
                    initial,
                    g,
                    v,
                    noise,
                    dt,
                    before,
                    draws,
                    (j * interval) as nat,
                );
            }
            assert(draws[step - 1] == noise_ctx.draws@);
            if noise is Off {
                assert(draws =~= filled(step as nat, filled(d as nat, T::zero_spec())));
            }
            assert(gs_next@ == state_after(initial, g, v, noise, dt, draws, step as nat));
        }

        std::mem::swap(&mut gs_curr, &mut gs_next);
        proof {
            lemma_save_points(step as nat, interval);
        }
        if step % save_interval == 0 {
            series.add(&gs_curr);
            proof {
                let at = samples_before.len() as int;
                assert(at == step as nat / interval);
                assert(at * interval == step);
            }
        }
        report_progress(progress_counter, step);
    }
    assert(epoch_outcome(
        epoch,
        initial,
        g,
        v,
        noise,
        dt,
        num_steps as nat,
        save_interval as nat,
        draws,
        gs_curr@,
        series@,
    ));
    (gs_curr, series)
}

/// Integrates a single trajectory for one epoch and returns the final
/// snapshot together with the recorded time series.
///
/// Every step runs the raw Runge-Kutta stepper, then `sanitize`, then the
/// noise. The snapshot of step zero is always recorded, and after it every
/// `save_interval`-th one. A save interval of zero is refused before any work
/// is done. A noise that is not off draws from a generator seeded by the
/// operating system.
pub fn solve<T: Scalar>(
    epoch: usize,
    gs_i: SystemState<T>,
    interaction_matrix: &Vec<Vec<T>>,
    growth_vector: Option<&Vec<T>>,
    noise: Noise<T>,
    dt: T,
    num_steps: usize,
    save_interval: usize,
    progress_counter: Option<&AtomicUsize>,
) -> (result: Result<(SystemState<T>, SystemStateTimeSeries<T>), SolveError>)
    requires
        is_square(matrix_rows(interaction_matrix), gs_i.state@.len()),
        growth_vector is Some ==> growth_vector->0@.len() == gs_i.state@.len(),
        gs_i.time + num_steps <= usize::MAX,
    ensures
        save_interval == 0 ==> result == Err::<(SystemState<T>, SystemStateTimeSeries<T>), _>(
            SolveError::InvalidSaveInterval,
        ),
        save_interval != 0 && noise is Off ==> result is Ok && epoch_outcome(
            epoch,
            gs_i@,
            growth_or_zero(growth_vector, gs_i.state@.len()),
            matrix_rows(interaction_matrix),
            noise,
            dt,
            num_steps as nat,
            save_interval as nat,
            filled(num_steps as nat, filled(gs_i.state@.len(), T::zero_spec())),
            result->Ok_0.0@,
            result->Ok_0.1@,
        ),
        save_interval != 0 ==> match result {
            Ok(outcome) => epoch_outcome_of_some_draws(
                epoch,
                gs_i@,
                growth_or_zero(growth_vector, gs_i.state@.len()),
                matrix_rows(interaction_matrix),
                noise,
                dt,
                num_steps as nat,
                save_interval as nat,
                outcome.0@,
                outcome.1@,
            ),
            Err(error) => error == SolveError::EntropyUnavailable,
        },
{
    if save_interval == 0 {
        return Err(SolveError::InvalidSaveInterval);
    }
    let generator = match noise {
        Noise::Off => None,
        _ => {
            let seeded = generator_from_os();
            if seeded.is_none() {
                return Err(SolveError::EntropyUnavailable);
            }
            seeded
        },
    };
    let outcome = integrate(
        epoch,
        gs_i,
        interaction_matrix,
        growth_vector,
        noise,
        dt,
        num_steps,
        save_interval,
        progress_counter,
        generator,
    );
    Ok(outcome)
}

/// The raw step is deterministic: its result is a function of the state, the
/// growth vector, the interaction matrix and the step size alone, so two
/// invocations on the same inputs agree entry by entry, whatever the scratch
/// buffers held before.
pub proof fn lemma_raw_step_is_deterministic<T: Scalar>(
    nu: Seq<T>,
    g: Seq<T>,
    v: Seq<Seq<T>>,
    dt: T,
    first: Seq<T>,
    second: Seq<T>,
)
    requires
        first == rk4_step(nu, g, v, dt),
        second == rk4_step(nu, g, v, dt),
    ensures
        first == second,
        first.len() == nu.len(),
{
}

/// With the noise off a whole epoch is deterministic: two outcomes of the
/// same arguments hold the same final snapshot and the same samples.
pub proof fn lemma_quiet_epoch_is_deterministic<T: Scalar>(
    epoch: usize,
    initial: StateView<T>,
    g: Seq<T>,
    v: Seq<Seq<T>>,
    dt: T,
    num_steps: nat,
    save_interval: nat,
    first_draws: Seq<Seq<T>>,
    first_last: StateView<T>,
    first_series: TimeSeriesView<T>,
    second_draws: Seq<Seq<T>>,
    second_last: StateView<T>,
    second_series: TimeSeriesView<T>,
)
    requires
        epoch_outcome(
            epoch,
            initial,
            g,
            v,
            Noise::Off,
            dt,
            num_steps,
            save_interval,
            first_draws,
            first_last,
            first_series,
        ),
        epoch_outcome(
            epoch,
            initial,
            g,
            v,
            Noise::Off,
            dt,
            num_steps,
            save_interval,
            second_draws,
            second_last,
            second_series,
        ),
    ensures
        first_last == second_last,
        first_series == second_series,
{
    assert forall|k: nat|
        state_after(initial, g, v, Noise::Off, dt, first_draws, k) == state_after(
            initial,
            g,
            v,
            Noise::Off,
            dt,
            second_draws,
            k,
        ) by {
        lemma_quiet_trajectory_ignores_draws(initial, g, v, dt, first_draws, second_draws, k);
    }
    assert(first_series.samples =~= second_series.samples);
}

/// With the noise off the draws have no say in a trajectory.
pub proof fn lemma_quiet_trajectory_ignores_draws<T: Scalar>(
    initial: StateView<T>,
    g: Seq<T>,
    v: Seq<Seq<T>>,
    dt: T,
    draws: Seq<Seq<T>>,
    others: Seq<Seq<T>>,
    k: nat,
)
    ensures
        state_after(initial, g, v, Noise::Off, dt, draws, k) == state_after(
            initial,
            g,
            v,
            Noise::Off,
            dt,
            others,
            k,
        ),
    decreases k,
{
    if k > 0 {
        lemma_quiet_trajectory_ignores_draws(initial, g, v, dt, draws, others, (k - 1) as nat);
        let previous = state_after(initial, g, v, Noise::Off, dt, draws, (k - 1) as nat);
        let clean = sanitized_state(initial.mode, rk4_step(previous.state, g, v, dt));
        lemma_noise_off_is_identity(clean, dt, draws[k - 1]);
        lemma_noise_off_is_identity(clean, dt, others[k - 1]);
    }
}

/// The samples of an epoch are stamped with ascending times: sample `j` was
/// taken `j` save intervals after the initial snapshot.
pub proof fn lemma_sample_times<T: Scalar>(
    epoch: usize,
    initial: StateView<T>,
    g: Seq<T>,
    v: Seq<Seq<T>>,
    noise: Noise<T>,
    dt: T,
    num_steps: nat,
    save_interval: nat,
    draws: Seq<Seq<T>>,
    last: StateView<T>,
    series: TimeSeriesView<T>,
    j: int,
)
    requires
        save_interval >= 1,
        initial.time + num_steps <= usize::MAX,
        epoch_outcome(
            epoch,
            initial,
            g,
            v,
            noise,
            dt,
            num_steps,
            save_interval,
            draws,
            last,
            series,
        ),
        0 <= j < series.samples.len(),
    ensures
        j * save_interval <= num_steps,
        series.samples[j].time == initial.time + j * save_interval,
        series.samples[j].state.len() == initial.state.len(),
        last.time == initial.time + num_steps,
        last.mode == initial.mode,
        last.state.len() == initial.state.len(),
{
    let count = num_steps / save_interval;
    lemma_fundamental_div_mod(num_steps as int, save_interval as int);
    assert(j * save_interval <= count * save_interval) by (nonlinear_arith)
        requires
            0 <= j <= count,
            save_interval >= 1,
    ;
    assert(count * save_interval == save_interval * count) by (nonlinear_arith);
    assert(0 <= j * save_interval) by (nonlinear_arith)
        requires
            0 <= j,
            save_interval >= 1,
    ;
    lemma_state_after_keeps_length(initial, g, v, noise, dt, draws, (j * save_interval) as nat);
    lemma_state_after_keeps_length(initial, g, v, noise, dt, draws, num_steps);
}

/// Epoch chaining: when the snapshot that one epoch returns is handed to the
/// next, the next epoch opens with the sanitized form of that snapshot, at
/// the time the first one ended and in the same mode. Where sanitizing
/// leaves the returned snapshot as it is, the opening sample of the next
/// epoch is that snapshot itself.
pub proof fn lemma_epoch_chaining<T: Scalar>(
    g: Seq<T>,
    v: Seq<Seq<T>>,
    noise: Noise<T>,
    dt: T,
    num_steps: nat,
    save_interval: nat,
    earlier_epoch: usize,
    earlier_initial: StateView<T>,
    earlier_draws: Seq<Seq<T>>,
    handed_over: StateView<T>,
    earlier_series: TimeSeriesView<T>,
    later_epoch: usize,
    later_draws: Seq<Seq<T>>,
    later_last: StateView<T>,
    later_series: TimeSeriesView<T>,
)
    requires
        save_interval >= 1,
        earlier_initial.time + num_steps <= usize::MAX,
        epoch_outcome(
            earlier_epoch,
            earlier_initial,
            g,
            v,
            noise,
            dt,
            num_steps,
            save_interval,
            earlier_draws,
            handed_over,
            earlier_series,
        ),
        epoch_outcome(
            later_epoch,
            handed_over,
            g,
            v,
            noise,
            dt,
            num_steps,
            save_interval,
            later_draws,
            later_last,
            later_series,
        ),
    ensures
        later_series.samples.len() >= 1,
        later_series.samples[0] == record_of(sanitized(handed_over)),
        later_series.samples[0].time == earlier_initial.time + num_steps,
        later_series.mode == earlier_series.mode,
        sanitized(handed_over) == handed_over ==> later_series.samples[0] == record_of(
            handed_over,
        ),
{
    lemma_state_after_keeps_length(
        earlier_initial,
        g,
        v,
        noise,
        dt,
        earlier_draws,
        num_steps,
    );
    assert(0 * save_interval == 0) by (nonlinear_arith);
    assert(later_series.samples[0] == record_of(
        state_after(handed_over, g, v, noise, dt, later_draws, (0 * save_interval) as nat),
    ));
}

} // verus!
