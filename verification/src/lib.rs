//! A discrete-time molecular dynamics simulator: point particles in a
//! periodic D-dimensional box under a short-range pairwise potential,
//! advanced by a leapfrog integrator.
//!
//! Every quantity of the physical model is an IEEE-754 binary32 value,
//! carried throughout the crate as its 32-bit pattern (see [`scalar`]).
//! The arithmetic itself is delegated to a software implementation of
//! IEEE-754 behind a handful of trusted wrappers; everything built on top
//! of it — the boundary wrap, the force evaluation, the integrator, the
//! lattice generator and the checkpoint log — is specified exactly, as a
//! symbolic function of the operand bit patterns, and verified.

pub mod boundaries;
pub mod d_vector;
pub mod initial_state;
pub mod job;
pub mod lennard_jones;
pub mod potential;
pub mod prop;
pub mod scalar;
pub mod track;
pub mod verlet;
