//! Progress notifications of a running trajectory.

use vstd::prelude::*;
use std::sync::atomic::AtomicUsize;
use std::sync::atomic::Ordering;

verus! {

/// Tells the observer, if there is one, that `step` steps are done. The
/// update is advisory: it is published without ordering guarantees.
pub(crate) fn report_progress(progress_counter: Option<&AtomicUsize>, step: usize) {
    if let Some(counter) = progress_counter {
        counter.store(step, Ordering::Relaxed);
    }
}

} // verus!
