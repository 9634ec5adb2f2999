//! A two-dimensional Ising-type spin lattice on a periodic square grid,
//! with a Metropolis single-spin-flip engine and a schedule of
//! measurements.
//!
//! All arithmetic is exact. The coupling, the field, the temperature and
//! every energy are integers, counted in a unit of the caller's choosing:
//! a caller who wants a finer step takes a smaller unit and scales what
//! goes in and what comes out. The one real-valued step of the Metropolis
//! rule, the test `exp(-delta / (K_B * T)) > p` for a uniform draw `p`, is
//! made by the caller and handed to the engine as a function.
//!
//! - [`spin`]: the two-valued spin.
//! - [`model`]: what a lattice is, and its Hamiltonian.
//! - [`theory`]: what holds of every lattice.
//! - [`lattice`]: the lattice as stored, with its energy and its flips.
//! - [`mcmc`]: the Metropolis engine.
//! - [`measurement`]: the schedule and its records.
//! - [`random`], [`config`]: the calls into the `rand` and `serde_json`
//!   crates.

pub mod spin;
pub mod model;
pub mod theory;
pub mod random;
pub mod lattice;
pub mod mcmc;
pub mod config;
pub mod measurement;
