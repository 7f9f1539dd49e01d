//! A single snapshot of the population and the rules that keep it valid.

use vstd::prelude::*;
use crate::scalar::{at_most, le, obeys_sign_rules, Scalar};
use crate::vector::{duplicate, fill, filled, repeat, scale, scaled, sum, total, zeros};

verus! {

/// What the entries of a state vector mean.
///
/// `Frequency`: the entries live on the probability simplex and the mass is
/// one by convention. `Population`: the entries are absolute counts, capped
/// in total by the carrying capacity where one is set. In both, `cutoff` is
/// an absorbing boundary: an entry below it counts as extinct.
#[derive(Debug)]
pub enum Mode<T> {
    Frequency { cutoff: T },
    Population { cutoff: T, carrying_capacity: Option<T> },
}

impl<T: Copy> Clone for Mode<T> {
    fn clone(&self) -> (copy: Self)
        ensures
            copy == *self,
    {
        *self
    }
}

impl<T: Copy> Copy for Mode<T> {

}

/// A spatial field carried alongside the state vector: the lengths of its
/// axes and its cells in row-major order. The engine does not interpret it.
#[derive(Debug)]
pub struct Field<T> {
    pub shape: Vec<usize>,
    pub cells: Vec<T>,
}

/// What a spatial field holds.
pub struct FieldView<T> {
    pub shape: Seq<usize>,
    pub cells: Seq<T>,
}

impl<T> View for Field<T> {
    type V = FieldView<T>;

    open spec fn view(&self) -> FieldView<T> {
        FieldView { shape: self.shape@, cells: self.cells@ }
    }
}

/// What an optional spatial field holds.
pub open spec fn space_view<T>(space: Option<Field<T>>) -> Option<FieldView<T>> {
    match space {
        Some(field) => Some(field@),
        None => None,
    }
}

/// Snapshot at an integer time index.
///
/// `state` holds one entry per taxon, `space` an optional spatial field, and
/// `mass` the aggregate that `sanitize` derives from the entries.
#[derive(Debug)]
pub struct SystemState<T> {
    pub mode: Mode<T>,
    pub time: usize,
    pub state: Vec<T>,
    pub space: Option<Field<T>>,
    pub mass: T,
}

/// What a snapshot holds.
pub struct StateView<T> {
    pub mode: Mode<T>,
    pub time: usize,
    pub state: Seq<T>,
    pub space: Option<FieldView<T>>,
    pub mass: T,
}

impl<T> View for SystemState<T> {
    type V = StateView<T>;

    open spec fn view(&self) -> StateView<T> {
        StateView {
            mode: self.mode,
            time: self.time,
            state: self.state@,
            space: space_view(self.space),
            mass: self.mass,
        }
    }
}

impl<T: Copy> Clone for Field<T> {
    fn clone(&self) -> (copy: Self)
        ensures
            copy@ == self@,
    {
        Field { shape: duplicate(&self.shape), cells: duplicate(&self.cells) }
    }
}

/// An independent copy of an optional spatial field.
pub fn duplicate_space<T: Copy>(space: &Option<Field<T>>) -> (copy: Option<Field<T>>)
    ensures
        space_view(copy) == space_view(*space),
{
    match space {
        Some(field) => Some(field.clone()),
        None => None,
    }
}

impl<T: Copy> Clone for SystemState<T> {
    fn clone(&self) -> (copy: Self)
        ensures
            copy@ == self@,
    {
        SystemState {
            mode: self.mode,
            time: self.time,
            state: duplicate(&self.state),
            space: duplicate_space(&self.space),
            mass: self.mass,
        }
    }
}

/// The cutoff that is applied: the declared one, but never below zero.
pub open spec fn effective_cutoff<T: Scalar>(cutoff: T) -> T {
    cutoff.max_spec(T::zero_spec())
}

/// Whether an entry counts as absent under `cutoff`: it is not finite, not
/// positive, or below the cutoff.
pub open spec fn is_absent<T: Scalar>(x: T, cutoff: T) -> bool {
    !x.is_finite_spec() || at_most(x, T::zero_spec()) || x.lt_spec(cutoff)
}

/// The entries with every absent one replaced by zero.
pub open spec fn cut<T: Scalar>(s: Seq<T>, cutoff: T) -> Seq<T> {
    Seq::new(s.len(), |i: int| if is_absent(s[i], cutoff) { T::zero_spec() } else { s[i] })
}

/// The share of one taxon when `len` taxa are equally frequent.
pub open spec fn uniform_share<T: Scalar>(len: nat) -> T {
    T::one_spec().div_spec(T::from_u64_spec(len as u64))
}

/// The projection of already cut entries onto the simplex: divided by their
/// sum where that is positive, the uniform distribution otherwise.
pub open spec fn normalized<T: Scalar>(c: Seq<T>) -> Seq<T> {
    if T::zero_spec().lt_spec(total(c)) {
        scaled(c, T::one_spec().div_spec(total(c)))
    } else {
        filled(c.len(), uniform_share::<T>(c.len()))
    }
}

/// Already cut entries held to a carrying capacity: wiped out by a capacity
/// that is not positive, kept while their sum is within it, and scaled down
/// onto it otherwise.
pub open spec fn capped<T: Scalar>(c: Seq<T>, capacity: T) -> Seq<T> {
    if at_most(capacity, T::zero_spec()) {
        filled(c.len(), T::zero_spec())
    } else if at_most(total(c), capacity) {
        c
    } else {
        scaled(c, capacity.div_spec(total(c)))
    }
}

/// The rounded value, but never below zero.
pub open spec fn rounded_mass<T: Scalar>(x: T) -> T {
    x.round_spec().max_spec(T::zero_spec())
}

/// The state vector that `sanitize` leaves for the entries `s` under `mode`.
pub open spec fn sanitized_state<T: Scalar>(mode: Mode<T>, s: Seq<T>) -> Seq<T> {
    match mode {
        Mode::Frequency { cutoff } => normalized(cut(s, effective_cutoff(cutoff))),
        Mode::Population { cutoff, carrying_capacity } => {
            let c = cut(s, effective_cutoff(cutoff));
            match carrying_capacity {
                None => c,
                Some(capacity) => capped(c, capacity),
            }
        },
    }
}

/// The mass that `sanitize` derives for the entries `s` under `mode`.
pub open spec fn sanitized_mass<T: Scalar>(mode: Mode<T>, s: Seq<T>) -> T {
    match mode {
        Mode::Frequency { cutoff } => T::one_spec(),
        Mode::Population { cutoff, carrying_capacity } => {
            let c = cut(s, effective_cutoff(cutoff));
            match carrying_capacity {
                None => rounded_mass(total(c)),
                Some(capacity) => if at_most(capacity, T::zero_spec()) {
                    T::zero_spec()
                } else if total(c).lt_spec(capacity) {
                    rounded_mass(total(c))
                } else {
                    rounded_mass(capacity)
                },
            }
        },
    }
}

/// The snapshot that `sanitize` leaves: the entries and the mass follow the
/// mode, everything else stays.
pub open spec fn sanitized<T: Scalar>(gs: StateView<T>) -> StateView<T> {
    StateView {
        state: sanitized_state(gs.mode, gs.state),
        mass: sanitized_mass(gs.mode, gs.state),
        ..gs
    }
}

/// The state vector that `from_arrays` stores for the entries `s`: placed on
/// the simplex in `Frequency` mode, taken as they are in `Population` mode.
pub open spec fn arranged_state<T: Scalar>(mode: Mode<T>, s: Seq<T>) -> Seq<T> {
    match mode {
        Mode::Frequency { cutoff } => normalized(s),
        Mode::Population { cutoff, carrying_capacity } => s,
    }
}

/// The mass that `from_arrays` stores for the entries `s`: one on the
/// simplex (zero where there is no taxon at all), the plain sum for counts.
pub open spec fn arranged_mass<T: Scalar>(mode: Mode<T>, s: Seq<T>) -> T {
    match mode {
        Mode::Frequency { cutoff } => if T::zero_spec().lt_spec(total(s)) || s.len() > 0 {
            T::one_spec()
        } else {
            T::zero_spec()
        },
        Mode::Population { cutoff, carrying_capacity } => total(s),
    }
}

/// The number of cells of a field with the given axis lengths.
pub open spec fn volume(shape: Seq<usize>) -> nat
    decreases shape.len(),
{
    if shape.len() == 0 {
        1
    } else {
        volume(shape.drop_last()) * (shape.last() as nat)
    }
}

/// The product of the axis lengths that are not zero.
pub open spec fn nonzero_volume(shape: Seq<usize>) -> nat
    decreases shape.len(),
{
    if shape.len() == 0 {
        1
    } else if shape.last() == 0 {
        nonzero_volume(shape.drop_last())
    } else {
        nonzero_volume(shape.drop_last()) * (shape.last() as nat)
    }
}

/// The product over a prefix of the axes never exceeds the product over all
/// of them, once zero lengths are left out.
pub proof fn lemma_nonzero_volume_grows(shape: Seq<usize>, k: int)
    requires
        0 <= k <= shape.len(),
    ensures
        1 <= nonzero_volume(shape.take(k)) <= nonzero_volume(shape),
    decreases shape.len() - k,
{
    if k == shape.len() {
        assert(shape.take(k) =~= shape);
        lemma_nonzero_volume_positive(shape);
    } else {
        lemma_nonzero_volume_grows(shape, k + 1);
        assert(shape.take(k + 1).drop_last() =~= shape.take(k));
        lemma_nonzero_volume_positive(shape.take(k));
        let a = nonzero_volume(shape.take(k));
        let b = shape[k] as nat;
        if b != 0 {
            assert(a <= a * b) by (nonlinear_arith)
                requires
                    a >= 1,
                    b >= 1,
            ;
        }
    }
}

/// The product of the non-zero axis lengths is at least one.
pub proof fn lemma_nonzero_volume_positive(shape: Seq<usize>)
    ensures
        nonzero_volume(shape) >= 1,
    decreases shape.len(),
{
    if shape.len() > 0 {
        lemma_nonzero_volume_positive(shape.drop_last());
        let a = nonzero_volume(shape.drop_last());
        let b = shape.last() as nat;
        if b != 0 {
            assert(a * b >= 1) by (nonlinear_arith)
                requires
                    a >= 1,
                    b >= 1,
            ;
        }
    }
}

/// The number of cells is the product of the non-zero axis lengths, or zero
/// where some axis has length zero.
pub proof fn lemma_volume_by_axes(shape: Seq<usize>)
    ensures
        volume(shape) == if exists|j: int| 0 <= j < shape.len() && shape[j] == 0 {
            0
        } else {
            nonzero_volume(shape)
        },
    decreases shape.len(),
{
    if shape.len() > 0 {
        let front = shape.drop_last();
        lemma_volume_by_axes(front);
        let has_zero = exists|j: int| 0 <= j < shape.len() && shape[j] == 0;
        let front_has_zero = exists|j: int| 0 <= j < front.len() && front[j] == 0;
        if front_has_zero {
            let j = choose|j: int| 0 <= j < front.len() && front[j] == 0;
            assert(shape[j] == 0);
            assert(volume(front) * (shape.last() as nat) == 0) by (nonlinear_arith)
                requires
                    volume(front) == 0,
            ;
        } else if shape.last() == 0 {
            assert(shape[shape.len() - 1] == 0);
            assert(volume(front) * (shape.last() as nat) == 0) by (nonlinear_arith)
                requires
                    shape.last() == 0,
            ;
        } else {
            if has_zero {
                let j = choose|j: int| 0 <= j < shape.len() && shape[j] == 0;
                assert(front[j] == 0);
            }
        }
    }
}

impl<T: Scalar> Field<T> {
    /// There is one cell for every position of the shape.
    pub open spec fn wf(&self) -> bool {
        self.cells@.len() == volume(self.shape@)
    }

    /// A field of the given shape with every cell zero.
    pub fn zeros(shape: &[usize]) -> (field: Self)
        requires
            nonzero_volume(shape@) <= isize::MAX,
        ensures
            field.wf(),
            field.shape@ == shape@,
            field.cells@ == filled(volume(shape@), T::zero_spec()),
    {
        let mut axes: Vec<usize> = Vec::new();
        let mut count: usize = 1;
        let mut vacant = false;
        let mut k: usize = 0;
        while k < shape.len()
            invariant
                k <= shape.len(),
                axes@ == shape@.take(k as int),
                count == nonzero_volume(shape@.take(k as int)),
                vacant == (exists|j: int| 0 <= j < k && shape@[j] == 0),
                nonzero_volume(shape@) <= isize::MAX,
            decreases shape.len() - k,
        {
            let axis = shape[k];
            proof {
                lemma_nonzero_volume_grows(shape@, k as int + 1);
                assert(shape@.take(k as int + 1).drop_last() =~= shape@.take(k as int));
            }
            if axis == 0 {
                vacant = true;
            } else {
                count = count * axis;
            }
            axes.push(axis);
            assert(axes@ =~= shape@.take(k as int + 1));
            k += 1;
        }
        proof {
            assert(shape@.take(k as int) =~= shape@);
            lemma_volume_by_axes(shape@);
        }
        let len = if vacant {
            0
        } else {
            count
        };
        let cells = repeat(len, T::zero());
        Field { shape: axes, cells }
    }
}

impl<T: Scalar> SystemState<T> {
    /// Builds a snapshot from a state vector and an optional spatial field.
    ///
    /// In `Frequency` mode the vector is placed on the simplex: divided by its
    /// sum where that is positive, uniform otherwise. In `Population` mode it
    /// is stored as it is and the mass is its sum. No cutoff is applied.
    pub fn from_arrays(
        mode: Mode<T>,
        time: usize,
        state: Vec<T>,
        space: Option<Field<T>>,
    ) -> (gs: Self)
        ensures
            gs.mode == mode,
            gs.time == time,
            gs.space == space,
            gs.state@ == arranged_state(mode, state@),
            gs.mass == arranged_mass(mode, state@),
    {
        let mut state = state;
        let total = sum(&state);
        let mass = match mode {
            Mode::Frequency { .. } => {
                if T::zero().lt(total) {
                    let inv = T::one().div(total);
                    scale(&mut state, inv);
                    T::one()
                } else {
                    let d = state.len();
                    if d > 0 {
                        let v = T::one().div(T::from_u64(d as u64));
                        fill(&mut state, v);
                        T::one()
                    } else {
                        assert(state@ =~= filled(0, uniform_share::<T>(0)));
                        T::zero()
                    }
                }
            },
            Mode::Population { .. } => total,
        };
        SystemState { mode, time, state, space, mass }
    }

    /// A snapshot of `num_taxa` taxa built from an all-zero vector, with an
    /// all-zero spatial field where a shape is given.
    pub fn empty(
        mode: Mode<T>,
        time: usize,
        num_taxa: usize,
        space_shape: Option<&[usize]>,
    ) -> (gs: Self)
        requires
            space_shape is Some ==> nonzero_volume(space_shape->0@) <= isize::MAX,
        ensures
            gs.mode == mode,
            gs.time == time,
            gs.state@ == arranged_state(mode, filled(num_taxa as nat, T::zero_spec())),
            gs.mass == arranged_mass(mode, filled(num_taxa as nat, T::zero_spec())),
            space_shape is None ==> gs.space is None,
            space_shape is Some ==> {
                &&& gs.space is Some
                &&& gs.space->0.wf()
                &&& gs.space->0.shape@ == space_shape->0@
                &&& gs.space->0.cells@ == filled(volume(space_shape->0@), T::zero_spec())
            },
    {
        let state = zeros(num_taxa);
        let space = match space_shape {
            Some(shape) => Some(Field::zeros(shape)),
            None => None,
        };
        Self::from_arrays(mode, time, state, space)
    }

    /// The position in `state` of species `i`, counted from one.
    fn species_index(&self, i: usize) -> (idx: usize)
        requires
            1 <= i <= self.state@.len(),
        ensures
            idx == i - 1,
            idx < self.state@.len(),
    {
        i - 1
    }

    /// The value for species `i`, counted from one.
    pub fn get(&self, i: usize) -> (value: T)
        requires
            1 <= i <= self.state@.len(),
        ensures
            value == self.state@[i - 1],
    {
        let idx = self.species_index(i);
        self.state[idx]
    }

    /// Sets the value for species `i`, counted from one. In `Population` mode
    /// the mass follows the change, but never drops below zero.
    pub fn set(&mut self, i: usize, value: T)
        requires
            1 <= i <= old(self).state@.len(),
        ensures
            final(self).state@ == old(self).state@.update(i - 1, value),
            final(self).mass == match old(self).mode {
                Mode::Frequency { cutoff } => old(self).mass,
                Mode::Population { cutoff, carrying_capacity } => old(self).mass.add_spec(
                    value,
                ).sub_spec(old(self).state@[i - 1]).max_spec(T::zero_spec()),
            },
            final(self).mode == old(self).mode,
            final(self).time == old(self).time,
            final(self).space == old(self).space,
    {
        let idx = self.species_index(i);
        let previous = self.state[idx];
        self.state[idx] = value;
        if let Mode::Population { .. } = self.mode {
            self.mass = self.mass.add(value).sub(previous).max(T::zero());
        }
    }

    /// Raises species `i`, counted from one, by one. In `Population` mode the
    /// mass rises by one as well.
    pub fn increase(&mut self, i: usize)
        requires
            1 <= i <= old(self).state@.len(),
        ensures
            final(self).state@ == old(self).state@.update(
                i - 1,
                old(self).state@[i - 1].add_spec(T::one_spec()),
            ),
            final(self).mass == match old(self).mode {
                Mode::Frequency { cutoff } => old(self).mass,
                Mode::Population { cutoff, carrying_capacity } => old(self).mass.add_spec(
                    T::one_spec(),
                ),
            },
            final(self).mode == old(self).mode,
            final(self).time == old(self).time,
            final(self).space == old(self).space,
    {
        let idx = self.species_index(i);
        let current = self.state[idx];
        self.state[idx] = current.add(T::one());
        if let Mode::Population { .. } = self.mode {
            self.mass = self.mass.add(T::one());
        }
    }

    /// Lowers species `i`, counted from one, by one. In `Population` mode the
    /// mass drops by one as well, but never below zero.
    pub fn decrease(&mut self, i: usize)
        requires
            1 <= i <= old(self).state@.len(),
        ensures
            final(self).state@ == old(self).state@.update(
                i - 1,
                old(self).state@[i - 1].sub_spec(T::one_spec()),
            ),
            final(self).mass == match old(self).mode {
                Mode::Frequency { cutoff } => old(self).mass,
                Mode::Population { cutoff, carrying_capacity } => old(self).mass.sub_spec(
                    T::one_spec(),
                ).max_spec(T::zero_spec()),
            },
            final(self).mode == old(self).mode,
            final(self).time == old(self).time,
            final(self).space == old(self).space,
    {
        let idx = self.species_index(i);
        let current = self.state[idx];
        self.state[idx] = current.sub(T::one());
        if let Mode::Population { .. } = self.mode {
            self.mass = self.mass.sub(T::one()).max(T::zero());
        }
    }

    /// Replaces by zero every entry that is not finite, not positive, or below
    /// `cutoff`.
    fn apply_cutoff(&mut self, cutoff: T, zero: T)
        requires
            zero == T::zero_spec(),
        ensures
            final(self).state@ == cut(old(self).state@, cutoff),
            final(self).mode == old(self).mode,
            final(self).time == old(self).time,
            final(self).space == old(self).space,
            final(self).mass == old(self).mass,
    {
        let n = self.state.len();
        let mut i: usize = 0;
        while i < n
            invariant
                i <= n,
                zero == T::zero_spec(),
                self.state@.len() == n,
                n == old(self).state@.len(),
                forall|j: int| 0 <= j < i ==> self.state@[j] == cut(old(self).state@, cutoff)[j],
                forall|j: int| i <= j < n ==> self.state@[j] == old(self).state@[j],
                self.mode == old(self).mode,
                self.time == old(self).time,
                self.space == old(self).space,
                self.mass == old(self).mass,
            decreases n - i,
        {
            let x = self.state[i];
            if !x.is_finite() || le(x, zero) || x.lt(cutoff) {
                self.state[i] = zero;
            }
            i += 1;
        }
        assert(self.state@ =~= cut(old(self).state@, cutoff));
    }

    /// Enforces the invariants of the state's mode and recomputes `mass`.
    ///
    /// Entries that are not finite, not positive, or below the effective
    /// cutoff are zeroed first. In `Frequency` mode the rest is divided by its
    /// sum, or replaced by the uniform distribution where nothing is left, and
    /// the mass is one. In `Population` mode the rest is held to the carrying
    /// capacity, and the mass is the rounded sum or the rounded capacity.
    pub fn sanitize(&mut self)
        ensures
            final(self)@ == sanitized(old(self)@),
            final(self).space == old(self).space,
    {
        let zero = T::zero();
        match self.mode {
            Mode::Frequency { cutoff } => {
                let cutoff = cutoff.max(zero);
                self.apply_cutoff(cutoff, zero);
                let total = sum(&self.state);
                if zero.lt(total) {
                    let inv = T::one().div(total);
                    scale(&mut self.state, inv);
                } else {
                    let d = self.state.len();
                    if d > 0 {
                        let v = T::one().div(T::from_u64(d as u64));
                        fill(&mut self.state, v);
                    }
                }
                self.mass = T::one();
                assert(self.state@ =~= sanitized_state(old(self).mode, old(self).state@));
            },
            Mode::Population { cutoff, carrying_capacity } => {
                let cutoff = cutoff.max(zero);
                self.apply_cutoff(cutoff, zero);
                let total = sum(&self.state);
                match carrying_capacity {
                    None => {
                        self.mass = total.round().max(zero);
                    },
                    Some(capacity) => {
                        if le(capacity, zero) {
                            fill(&mut self.state, zero);
                            self.mass = zero;
                        } else if total.lt(capacity) {
                            self.mass = total.round().max(zero);
                        } else if total.eq(capacity) {
                            self.mass = capacity.round().max(zero);
                        } else {
                            let factor = capacity.div(total);
                            scale(&mut self.state, factor);
                            self.mass = capacity.round().max(zero);
                        }
                    },
                }
            },
        }
    }
}

/// A vector of zeros sums to zero.
pub proof fn lemma_total_of_zeros<T: Scalar>(len: nat)
    ensures
        total(filled(len, T::zero_spec())) == T::zero_spec(),
    decreases len,
{
    T::zero_laws();
    if len > 0 {
        lemma_total_of_zeros::<T>((len - 1) as nat);
        assert(filled(len, T::zero_spec()).drop_last() =~= filled(
            (len - 1) as nat,
            T::zero_spec(),
        ));
    }
}

/// Uniform fallback: where the cutoff removes every entry, sanitizing in
/// `Frequency` mode leaves the uniform distribution, every taxon holding the
/// share one over the number of taxa.
pub proof fn lemma_uniform_fallback<T: Scalar>(cutoff: T, s: Seq<T>)
    requires
        forall|i: int| 0 <= i < s.len() ==> is_absent(#[trigger] s[i], effective_cutoff(cutoff)),
    ensures
        sanitized_state(Mode::Frequency { cutoff }, s) == filled(
            s.len(),
            uniform_share::<T>(s.len()),
        ),
        sanitized_mass(Mode::Frequency { cutoff }, s) == T::one_spec(),
{
    let c = cut(s, effective_cutoff(cutoff));
    assert(c =~= filled(s.len(), T::zero_spec()));
    lemma_total_of_zeros::<T>(s.len());
    T::zero_laws();
}

/// Uniform fallback for an all-zero vector: whatever the cutoff, sanitizing
/// it in `Frequency` mode leaves the uniform distribution.
pub proof fn lemma_uniform_fallback_of_zeros<T: Scalar>(cutoff: T, len: nat)
    ensures
        sanitized_state(Mode::Frequency { cutoff }, filled(len, T::zero_spec())) == filled(
            len,
            uniform_share::<T>(len),
        ),
{
    T::zero_laws();
    lemma_uniform_fallback(cutoff, filled(len, T::zero_spec()));
}

/// A snapshot built from an all-zero vector in `Frequency` mode is well
/// mixed: every taxon holds the share one over the number of taxa.
pub proof fn lemma_zeros_arrange_to_uniform<T: Scalar>(cutoff: T, len: nat)
    ensures
        arranged_state(Mode::Frequency { cutoff }, filled(len, T::zero_spec())) == filled(
            len,
            uniform_share::<T>(len),
        ),
{
    T::zero_laws();
    lemma_total_of_zeros::<T>(len);
}

/// Degenerate capacity: in `Population` mode a carrying capacity that is
/// zero or below wipes out every entry, and the mass is zero.
pub proof fn lemma_degenerate_capacity<T: Scalar>(cutoff: T, capacity: T, s: Seq<T>)
    requires
        at_most(capacity, T::zero_spec()),
    ensures
        sanitized_state(Mode::Population { cutoff, carrying_capacity: Some(capacity) }, s)
            == filled(s.len(), T::zero_spec()),
        sanitized_mass(Mode::Population { cutoff, carrying_capacity: Some(capacity) }, s)
            == T::zero_spec(),
{
}

/// Degenerate capacity at exactly zero: every state is wiped out.
pub proof fn lemma_zero_capacity<T: Scalar>(cutoff: T, s: Seq<T>)
    ensures
        sanitized_state(
            Mode::Population { cutoff, carrying_capacity: Some(T::zero_spec()) },
            s,
        ) == filled(s.len(), T::zero_spec()),
        sanitized_mass(Mode::Population { cutoff, carrying_capacity: Some(T::zero_spec()) }, s)
            == T::zero_spec(),
{
    T::zero_laws();
}

/// Sanitizing never changes the number of taxa, and leaves mode, time and
/// spatial field alone.
pub proof fn lemma_sanitized_keeps_shape<T: Scalar>(gs: StateView<T>)
    ensures
        sanitized(gs).state.len() == gs.state.len(),
        sanitized(gs).mode == gs.mode,
        sanitized(gs).time == gs.time,
        sanitized(gs).space == gs.space,
{
}

/// In `Frequency` mode, where something is left after the cutoff, every entry
/// that survives is its old value times the reciprocal of the sum of the
/// survivors, every other entry is zero times that reciprocal, and the mass
/// is one.
pub proof fn lemma_simplex_projection<T: Scalar>(cutoff: T, s: Seq<T>, i: int)
    requires
        0 <= i < s.len(),
        T::zero_spec().lt_spec(total(cut(s, effective_cutoff(cutoff)))),
    ensures
        sanitized_state(Mode::Frequency { cutoff }, s)[i] == (if is_absent(
            s[i],
            effective_cutoff(cutoff),
        ) {
            T::zero_spec()
        } else {
            s[i]
        }).mul_spec(T::one_spec().div_spec(total(cut(s, effective_cutoff(cutoff))))),
        sanitized_mass(Mode::Frequency { cutoff }, s) == T::one_spec(),
{
}

/// What the cutoff leaves of an entry is finite and not negative.
pub proof fn lemma_cut_is_not_negative<T: Scalar>(s: Seq<T>, cutoff: T, i: int)
    requires
        obeys_sign_rules::<T>(),
        0 <= i < s.len(),
    ensures
        cut(s, cutoff)[i].is_finite_spec(),
        at_most(T::zero_spec(), cut(s, cutoff)[i]),
{
    T::zero_laws();
    if !is_absent(s[i], cutoff) {
        assert(s[i].is_finite_spec());
    }
}

/// On the simplex nothing is negative: after sanitizing in `Frequency` mode
/// every entry is zero or above, provided the arithmetic obeys the rules of
/// sign and the reciprocal of the surviving sum, where that sum is positive,
/// is finite.
pub proof fn lemma_simplex_entries_are_not_negative<T: Scalar>(cutoff: T, s: Seq<T>, i: int)
    requires
        obeys_sign_rules::<T>(),
        0 <= i < s.len() <= usize::MAX,
        T::zero_spec().lt_spec(total(cut(s, effective_cutoff(cutoff)))) ==> T::one_spec().div_spec(
            total(cut(s, effective_cutoff(cutoff))),
        ).is_finite_spec(),
    ensures
        at_most(T::zero_spec(), sanitized_state(Mode::Frequency { cutoff }, s)[i]),
{
    let c = cut(s, effective_cutoff(cutoff));
    let sum = total(c);
    lemma_cut_is_not_negative(s, effective_cutoff(cutoff), i);
    if T::zero_spec().lt_spec(sum) {
        let inv = T::one_spec().div_spec(sum);
        assert(at_most(T::zero_spec(), inv));
        assert(at_most(T::zero_spec(), c[i].mul_spec(inv)));
    } else {
        let d = T::from_u64_spec(s.len() as u64);
        assert(T::zero_spec().lt_spec(d));
        assert(at_most(T::zero_spec(), T::one_spec().div_spec(d)));
    }
}

/// Counts are never negative: after sanitizing in `Population` mode every
/// entry is zero or above, provided the arithmetic obeys the rules of sign
/// and, where the state is scaled down onto its capacity, the capacity is
/// finite, the surviving sum positive and their quotient finite.
pub proof fn lemma_population_entries_are_not_negative<T: Scalar>(
    cutoff: T,
    carrying_capacity: Option<T>,
    s: Seq<T>,
    i: int,
)
    requires
        obeys_sign_rules::<T>(),
        0 <= i < s.len(),
        carrying_capacity matches Some(capacity) ==> {
            let sum = total(cut(s, effective_cutoff(cutoff)));
            !at_most(capacity, T::zero_spec()) && !at_most(sum, capacity) ==> {
                &&& capacity.is_finite_spec()
                &&& T::zero_spec().lt_spec(sum)
                &&& capacity.div_spec(sum).is_finite_spec()
            }
        },
    ensures
        at_most(
            T::zero_spec(),
            sanitized_state(Mode::Population { cutoff, carrying_capacity }, s)[i],
        ),
{
    T::zero_laws();
    let c = cut(s, effective_cutoff(cutoff));
    let sum = total(c);
    lemma_cut_is_not_negative(s, effective_cutoff(cutoff), i);
    match carrying_capacity {
        None => {},
        Some(capacity) => {
            if !at_most(capacity, T::zero_spec()) && !at_most(sum, capacity) {
                let factor = capacity.div_spec(sum);
                assert(T::zero_spec().lt_spec(capacity));
                assert(at_most(T::zero_spec(), factor));
                assert(at_most(T::zero_spec(), c[i].mul_spec(factor)));
            }
        },
    }
}

} // verus!
