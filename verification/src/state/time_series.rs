//! The snapshots recorded during one epoch, and the names of the documents
//! they are stored under.

use vstd::prelude::*;
use crate::state::system_state::{
    duplicate_space,
    space_view,
    Field,
    FieldView,
    Mode,
    StateView,
    SystemState,
};
use crate::vector::duplicate;

verus! {

/// A point-in-time copy of a snapshot, without its mode.
#[derive(Debug)]
pub struct SystemStateRecord<T> {
    pub time: usize,
    pub state: Vec<T>,
    pub space: Option<Field<T>>,
    pub mass: T,
}

/// What a record holds.
pub struct RecordView<T> {
    pub time: usize,
    pub state: Seq<T>,
    pub space: Option<FieldView<T>>,
    pub mass: T,
}

impl<T> View for SystemStateRecord<T> {
    type V = RecordView<T>;

    open spec fn view(&self) -> RecordView<T> {
        RecordView {
            time: self.time,
            state: self.state@,
            space: space_view(self.space),
            mass: self.mass,
        }
    }
}

/// The samples of one epoch, in the order they were recorded, with the mode
/// they all share.
#[derive(Debug)]
pub struct SystemStateTimeSeries<T> {
    pub epoch: usize,
    pub mode: Mode<T>,
    pub samples: Vec<SystemStateRecord<T>>,
}

/// What a time series holds.
pub struct TimeSeriesView<T> {
    pub epoch: usize,
    pub mode: Mode<T>,
    pub samples: Seq<RecordView<T>>,
}

impl<T> View for SystemStateTimeSeries<T> {
    type V = TimeSeriesView<T>;

    open spec fn view(&self) -> TimeSeriesView<T> {
        TimeSeriesView {
            epoch: self.epoch,
            mode: self.mode,
            samples: Seq::new(self.samples@.len(), |i: int| self.samples@[i]@),
        }
    }
}

/// The record that stands for a snapshot: everything but the mode.
pub open spec fn record_of<T>(gs: StateView<T>) -> RecordView<T> {
    RecordView { time: gs.time, state: gs.state, space: gs.space, mass: gs.mass }
}

impl<T: Copy> Clone for SystemStateRecord<T> {
    fn clone(&self) -> (copy: Self)
        ensures
            copy@ == self@,
    {
        SystemStateRecord {
            time: self.time,
            state: duplicate(&self.state),
            space: duplicate_space(&self.space),
            mass: self.mass,
        }
    }
}

impl<T: Copy> Clone for SystemStateTimeSeries<T> {
    fn clone(&self) -> (copy: Self)
        ensures
            copy@ == self@,
    {
        let mut samples: Vec<SystemStateRecord<T>> = Vec::new();
        let mut i: usize = 0;
        while i < self.samples.len()
            invariant
                i <= self.samples@.len(),
                samples@.len() == i,
                forall|j: int| 0 <= j < i ==> samples@[j]@ == self.samples@[j]@,
            decreases self.samples@.len() - i,
        {
            samples.push(self.samples[i].clone());
            i += 1;
        }
        let copy = SystemStateTimeSeries { epoch: self.epoch, mode: self.mode, samples };
        assert(copy@.samples =~= self@.samples);
        copy
    }
}

impl<T: Copy> SystemStateTimeSeries<T> {
    /// A time series for one epoch with no samples yet.
    pub fn empty(epoch: usize, mode: Mode<T>) -> (series: Self)
        ensures
            series@ == (TimeSeriesView { epoch, mode, samples: Seq::<RecordView<T>>::empty() }),
    {
        let series = SystemStateTimeSeries { epoch, mode, samples: Vec::new() };
        assert(series@.samples =~= Seq::<RecordView<T>>::empty());
        series
    }

    /// Appends a copy of the snapshot `gs` as the newest sample. The copy is
    /// independent of `gs`, and the earlier samples keep their order.
    pub fn add(&mut self, gs: &SystemState<T>)
        ensures
            final(self)@ == (TimeSeriesView {
                samples: old(self)@.samples.push(record_of(gs@)),
                ..old(self)@
            }),
    {
        let record = SystemStateRecord {
            time: gs.time,
            state: duplicate(&gs.state),
            space: duplicate_space(&gs.space),
            mass: gs.mass,
        };
        self.samples.push(record);
        assert(self@.samples =~= old(self)@.samples.push(record_of(gs@)));
    }
}

} // verus!
