//! Replicator population dynamics.
//!
//! Given an interaction matrix and an optional growth vector, the engine
//! integrates the replicator equation forward in time with a fixed-step
//! Runge-Kutta method, enforces the invariants of the state after every step,
//! perturbs it with an optional noise, and records periodic snapshots, one
//! time series per epoch.
//!
//! * [`scalar`] is the numeric interface everything is computed through;
//! * [`vector`] holds the elementwise operations on vectors of scalars;
//! * [`state`] holds snapshots, the rules that keep them valid, the time
//!   series of an epoch and the names of the documents it is stored under;
//! * [`solvers`] holds the vector field, the integrator, the noise model and
//!   the driver of one epoch;
//! * [`tasks`] chains epochs into runs.
//!
//! Every function comes with a contract that says exactly which chain of
//! scalar operations produced its result.

pub mod scalar;
pub mod solvers;
pub mod state;
pub mod tasks;
pub mod vector;
