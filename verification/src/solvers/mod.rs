//! Integrators for the replicator equation.

pub mod non_spatial;
