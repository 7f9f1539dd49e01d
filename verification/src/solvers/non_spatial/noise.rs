//! Stochastic perturbations applied to a state after it has been sanitized.

use vstd::prelude::*;
use rand::rngs::SmallRng;
use rand::{RngCore, SeedableRng};
use crate::scalar::Scalar;
use crate::state::system_state::SystemState;
use crate::vector::{filled, zeros};

verus! {

/// `rand::rngs::SmallRng`, the generator the noise draws from. Its state is
/// opaque here: nothing is known of the words it will produce.
#[verifier::external_type_specification]
#[verifier::external_body]
pub struct ExSmallRng(SmallRng);

/// How a state is perturbed once per step.
///
/// `Off` leaves it alone. `ProportionalGaussian` moves every entry by a
/// Gaussian amount proportional to the entry itself. `DemographicGaussian`
/// moves it by a Gaussian amount proportional to the square root of the
/// entry, as sampling from a finite population does.
#[derive(Debug)]
pub enum Noise<T> {
    Off,
    ProportionalGaussian(T),
    DemographicGaussian(T),
}

impl<T: Copy> Clone for Noise<T> {
    fn clone(&self) -> (copy: Self)
        ensures
            copy == *self,
    {
        *self
    }
}

impl<T: Copy> Copy for Noise<T> {

}

impl<T: Scalar> Noise<T> {
    /// No perturbation.
    pub fn none() -> (noise: Self)
        ensures
            noise == Noise::<T>::Off,
    {
        Noise::Off
    }

    /// Multiplicative noise of strength `sigma`.
    pub fn proportional_gaussian(sigma: T) -> (noise: Self)
        ensures
            noise == Noise::ProportionalGaussian(sigma),
    {
        Noise::ProportionalGaussian(sigma)
    }

    /// Sampling noise of strength `sigma`.
    pub fn demographic_gaussian(sigma: T) -> (noise: Self)
        ensures
            noise == Noise::DemographicGaussian(sigma),
    {
        Noise::DemographicGaussian(sigma)
    }
}

/// Scratch space of the noise model: the standard normal draws of the current
/// step, one per taxon.
pub struct NoiseContext<T> {
    pub draws: Vec<T>,
}

impl<T: Scalar> NoiseContext<T> {
    /// A context for a state of `d` taxa.
    pub fn new(d: usize) -> (ctx: Self)
        ensures
            ctx.draws@ == filled(d as nat, T::zero_spec()),
    {
        NoiseContext { draws: zeros(d) }
    }
}

/// Two to the power 53: the number of values a uniform draw can take.
pub const UNIT_STEPS: u64 = 9007199254740992;

/// The uniform draw in the half-open interval from zero (excluded) to one
/// (included) that a random word stands for: its upper 53 bits, counted from
/// one, over two to the power 53.
pub open spec fn unit_from_word<T: Scalar>(word: u64) -> T {
    T::from_u64_spec(((word >> 11) + 1) as u64).div_spec(T::from_u64_spec(UNIT_STEPS))
}

/// The standard normal draw that two random words stand for, by the
/// Box-Muller transform: the first word gives the radius, the second the
/// angle.
pub open spec fn normal_from_words<T: Scalar>(first: u64, second: u64) -> T {
    let two = T::from_u64_spec(2);
    let radius = T::zero_spec().sub_spec(
        two.mul_spec(unit_from_word::<T>(first).ln_spec()),
    ).sqrt_spec();
    let angle = T::tau_spec().mul_spec(unit_from_word::<T>(second));
    radius.mul_spec(angle.cos_spec())
}

/// Whether a number is a standard normal draw: what the Box-Muller transform
/// makes of some pair of random words.
pub open spec fn is_normal_draw<T: Scalar>(xi: T) -> bool {
    exists|first: u64, second: u64| xi == normal_from_words::<T>(first, second)
}

/// One entry after the perturbation `noise` with the standard normal draw
/// `xi`, for a step whose size has the square root `sqrt_dt`.
pub open spec fn perturbed_entry<T: Scalar>(x: T, noise: Noise<T>, sqrt_dt: T, xi: T) -> T {
    match noise {
        Noise::Off => x,
        Noise::ProportionalGaussian(sigma) => x.add_spec(
            sigma.mul_spec(x).mul_spec(sqrt_dt).mul_spec(xi),
        ),
        Noise::DemographicGaussian(sigma) => x.add_spec(
            sigma.mul_spec(x.sqrt_spec()).mul_spec(sqrt_dt).mul_spec(xi),
        ),
    }
}

/// The state vector after the perturbation `noise` over a step of size `dt`,
/// entry `i` being moved by the draw `draws[i]`.
pub open spec fn perturbed<T: Scalar>(s: Seq<T>, noise: Noise<T>, dt: T, draws: Seq<T>) -> Seq<T> {
    Seq::new(s.len(), |i: int| perturbed_entry(s[i], noise, dt.sqrt_spec(), draws[i]))
}

/// A generator seeded from the operating system, by
/// `SmallRng::try_from_os_rng`; `None` where the system gives no entropy.
/// Nothing is claimed of the generator that comes back.
#[verifier::external_body]
pub(crate) fn generator_from_os() -> Option<SmallRng> {
    SmallRng::try_from_os_rng().ok()
}

/// The next 64 random bits of the generator, by `RngCore::next_u64`. Nothing
/// is claimed of them.
#[verifier::external_body]
fn next_word(rng: &mut SmallRng) -> u64 {
    rng.next_u64()
}

/// Turns a random word into a uniform draw above zero and at most one.
pub fn unit_interval<T: Scalar>(word: u64) -> (u: T)
    ensures
        u == unit_from_word::<T>(word),
{
    let upper = word >> 11;
    assert(upper < 9007199254740992) by (bit_vector)
        requires
            upper == word >> 11,
    ;
    T::from_u64(upper + 1).div(T::from_u64(UNIT_STEPS))
}

/// Turns two random words into a standard normal draw.
pub fn standard_normal<T: Scalar>(first: u64, second: u64) -> (xi: T)
    ensures
        xi == normal_from_words::<T>(first, second),
{
    let two = T::from_u64(2);
    let u1: T = unit_interval(first);
    let u2: T = unit_interval(second);
    let radius = T::zero().sub(two.mul(u1.ln())).sqrt();
    let angle = T::tau().mul(u2);
    radius.mul(angle.cos())
}

/// Perturbs a state vector with the given standard normal draws.
pub fn perturb<T: Scalar>(state: &mut Vec<T>, noise: Noise<T>, dt: T, draws: &Vec<T>)
    requires
        draws@.len() == old(state)@.len(),
    ensures
        final(state)@ == perturbed(old(state)@, noise, dt, draws@),
        noise is Off ==> final(state)@ == old(state)@,
{
    let d = state.len();
    let sqrt_dt = dt.sqrt();
    let mut i: usize = 0;
    while i < d
        invariant
            i <= d,
            d == old(state)@.len(),
            state@.len() == d,
            draws@.len() == d,
            sqrt_dt == dt.sqrt_spec(),
            forall|r: int|
                0 <= r < i ==> state@[r] == perturbed_entry(
                    old(state)@[r],
                    noise,
                    sqrt_dt,
                    draws@[r],
                ),
            forall|r: int| i <= r < d ==> state@[r] == old(state)@[r],
        decreases d - i,
    {
        let x = state[i];
        match noise {
            Noise::Off => {},
            Noise::ProportionalGaussian(sigma) => {
                state[i] = x.add(sigma.mul(x).mul(sqrt_dt).mul(draws[i]));
            },
            Noise::DemographicGaussian(sigma) => {
                state[i] = x.add(sigma.mul(x.sqrt()).mul(sqrt_dt).mul(draws[i]));
            },
        }
        i += 1;
    }
    assert(state@ =~= perturbed(old(state)@, noise, dt, draws@));
    proof {
        if noise is Off {
            assert(state@ =~= old(state)@);
        }
    }
}

impl<T: Scalar> NoiseContext<T> {
    /// Replaces every draw by a fresh standard normal one from `rng`.
    pub fn refill(&mut self, rng: &mut SmallRng)
        ensures
            final(self).draws@.len() == old(self).draws@.len(),
            forall|i: int|
                0 <= i < final(self).draws@.len() ==> is_normal_draw(
                    #[trigger] final(self).draws@[i],
                ),
    {
        let d = self.draws.len();
        let mut i: usize = 0;
        while i < d
            invariant
                i <= d,
                self.draws@.len() == d,
                forall|j: int| 0 <= j < i ==> is_normal_draw(#[trigger] self.draws@[j]),
            decreases d - i,
        {
            let first = next_word(rng);
            let second = next_word(rng);
            self.draws[i] = standard_normal(first, second);
            i += 1;
        }
    }
}

/// Applies `noise` once to an already sanitized state, over a step of size
/// `dt`.
///
/// `Off` touches neither the state nor the context nor the generator. The
/// other kinds fill the context with fresh draws from `rng` and move every
/// entry by its draw. The state is not sanitized again, and its mass is left
/// as it was.
pub fn apply_noise_inplace<T: Scalar>(
    gs: &mut SystemState<T>,
    noise: Noise<T>,
    dt: T,
    ctx: &mut NoiseContext<T>,
    rng: &mut SmallRng,
)
    requires
        old(ctx).draws@.len() == old(gs).state@.len(),
    ensures
        final(gs).state@ == perturbed(old(gs).state@, noise, dt, final(ctx).draws@),
        final(gs).mode == old(gs).mode,
        final(gs).time == old(gs).time,
        final(gs).space == old(gs).space,
        final(gs).mass == old(gs).mass,
        final(ctx).draws@.len() == old(ctx).draws@.len(),
        noise is Off ==> *final(gs) == *old(gs) && *final(ctx) == *old(ctx) && *final(rng) == *old(
            rng,
        ),
        !(noise is Off) ==> forall|i: int|
            0 <= i < final(ctx).draws@.len() ==> is_normal_draw(#[trigger] final(ctx).draws@[i]),
{
    match noise {
        Noise::Off => {
            assert(gs.state@ =~= perturbed(gs.state@, noise, dt, ctx.draws@));
        },
        _ => {
            ctx.refill(rng);
            perturb(&mut gs.state, noise, dt, &ctx.draws);
        },
    }
}

/// Noise that is off is the identity: whatever the step size and the draws,
/// the state vector stays as it is.
pub proof fn lemma_noise_off_is_identity<T: Scalar>(s: Seq<T>, dt: T, draws: Seq<T>)
    ensures
        perturbed(s, Noise::Off, dt, draws) == s,
{
    assert(perturbed(s, Noise::Off, dt, draws) =~= s);
}

} // verus!
