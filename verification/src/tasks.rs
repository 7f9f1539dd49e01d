//! Runs of several epochs, back to back.
//!
//! A run is held as a value between epochs, so that whoever drives it can
//! store the time series of one epoch before the next one starts.

use vstd::prelude::*;
use std::sync::atomic::AtomicUsize;
use crate::scalar::Scalar;
use crate::solvers::non_spatial::noise::Noise;
use crate::solvers::non_spatial::rk4::{
    epoch_outcome,
    epoch_outcome_of_some_draws,
    growth_or_zero,
    is_square,
    matrix_rows,
    solve,
    SolveError,
};
use crate::state::system_state::{
    lemma_total_of_zeros,
    uniform_share,
    FieldView,
    Mode,
    StateView,
    SystemState,
};
use crate::state::time_series::SystemStateTimeSeries;
use crate::vector::filled;

verus! {

/// A run of `num_epochs` epochs, of which `completed` are done. Epochs are
/// numbered from one, and `state` is the snapshot the next one starts from.
pub struct EpochSequence<T> {
    pub completed: usize,
    pub num_epochs: usize,
    pub state: SystemState<T>,
}

/// The well-mixed snapshot of `d` taxa at time zero: every taxon equally
/// frequent, no spatial field.
pub open spec fn well_mixed_state<T: Scalar>(cutoff: T, d: nat) -> StateView<T> {
    StateView {
        mode: Mode::Frequency { cutoff },
        time: 0,
        state: filled(d, uniform_share::<T>(d)),
        space: None::<FieldView<T>>,
        mass: if d > 0 {
            T::one_spec()
        } else {
            T::zero_spec()
        },
    }
}

impl<T: Scalar> EpochSequence<T> {
    /// No more epochs are done than the run has.
    pub open spec fn wf(&self) -> bool {
        self.completed <= self.num_epochs
    }

    /// A run of `num_epochs` epochs that starts from the well-mixed state of
    /// `d` taxa in `Frequency` mode.
    pub fn well_mixed(cutoff: T, d: usize, num_epochs: usize) -> (run: Self)
        ensures
            run.wf(),
            run.completed == 0,
            run.num_epochs == num_epochs,
            run.state@ == well_mixed_state(cutoff, d as nat),
    {
        proof {
            T::zero_laws();
            lemma_total_of_zeros::<T>(d as nat);
        }
        let state = SystemState::empty(Mode::Frequency { cutoff }, 0, d, None);
        EpochSequence { completed: 0, num_epochs, state }
    }

    /// A run of `num_epochs` epochs that starts from `state`.
    pub fn starting_from(state: SystemState<T>, num_epochs: usize) -> (run: Self)
        ensures
            run.wf(),
            run.completed == 0,
            run.num_epochs == num_epochs,
            run.state == state,
    {
        EpochSequence { completed: 0, num_epochs, state }
    }

    /// Whether every epoch of the run is done.
    pub fn is_finished(&self) -> (finished: bool)
        ensures
            finished == (self.completed >= self.num_epochs),
    {
        self.completed >= self.num_epochs
    }

    /// Runs the next epoch: `epoch_len` steps from the snapshot the run
    /// holds, under the number one above the count of completed epochs.
    ///
    /// Returns the run as it stands afterwards together with the time series
    /// of the epoch. The snapshot that the epoch ended with is the one the
    /// following epoch will start from; nothing touches it in between.
    pub fn advance(
        self,
        interaction_matrix: &Vec<Vec<T>>,
        growth_vector: Option<&Vec<T>>,
        noise: Noise<T>,
        dt: T,
        epoch_len: usize,
        save_interval: usize,
        progress_counter: Option<&AtomicUsize>,
    ) -> (result: Result<(Self, SystemStateTimeSeries<T>), SolveError>)
        requires
            self.completed < self.num_epochs,
            is_square(matrix_rows(interaction_matrix), self.state.state@.len()),
            growth_vector is Some ==> growth_vector->0@.len() == self.state.state@.len(),
            self.state.time + epoch_len <= usize::MAX,
        ensures
            save_interval == 0 ==> result == Err::<(Self, SystemStateTimeSeries<T>), _>(
                SolveError::InvalidSaveInterval,
            ),
            save_interval != 0 && noise is Off ==> result is Ok && epoch_outcome(
                (self.completed + 1) as usize,
                self.state@,
                growth_or_zero(growth_vector, self.state.state@.len()),
                matrix_rows(interaction_matrix),
                noise,
                dt,
                epoch_len as nat,
                save_interval as nat,
                filled(epoch_len as nat, filled(self.state.state@.len(), T::zero_spec())),
                result->Ok_0.0.state@,
                result->Ok_0.1@,
            ),
            save_interval != 0 ==> match result {
                Ok((next, series)) => {
                    &&& next.wf()
                    &&& next.completed == self.completed + 1
                    &&& next.num_epochs == self.num_epochs
                    &&& epoch_outcome_of_some_draws(
                        next.completed,
                        self.state@,
                        growth_or_zero(growth_vector, self.state.state@.len()),
                        matrix_rows(interaction_matrix),
                        noise,
                        dt,
                        epoch_len as nat,
                        save_interval as nat,
                        next.state@,
                        series@,
                    )
                },
                Err(error) => error == SolveError::EntropyUnavailable,
            },
    {
        let epoch = self.completed + 1;
        let num_epochs = self.num_epochs;
        match solve(
            epoch,
            self.state,
            interaction_matrix,
            growth_vector,
            noise,
            dt,
            epoch_len,
            save_interval,
            progress_counter,
        ) {
            Ok((state, series)) => Ok((EpochSequence { completed: epoch, num_epochs, state }, series)),
            Err(error) => Err(error),
        }
    }
}

} // verus!
