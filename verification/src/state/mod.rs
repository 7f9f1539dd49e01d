//! Snapshots of the population and the invariants they are held to.

pub mod epoch_name;
pub mod grid;
pub mod system_state;
pub mod time_series;

pub use crate::scalar::Scalar;
pub use grid::SpeciesGrid;
pub use system_state::{Field, Mode, SystemState};
pub use time_series::{SystemStateRecord, SystemStateTimeSeries};
