//! The well-mixed trajectory engine: no spatial coupling between taxa.

pub mod noise;
pub mod progress;
pub mod rk4;
