//! A genetic-algorithm optimizer core for discrete, bounded, integer-vector
//! search spaces.
//!
//! The library evolves a population of candidate solutions ([`arm::Arm`])
//! within per-dimension integer bounds: uniform population initialization
//! with uniqueness, single-point crossover over consecutive pairs,
//! Gaussian-perturbation mutation with clamping and duplicate suppression,
//! and accounting of the objective-evaluation budget. Fitness evaluation
//! itself is the caller's job: the core only produces candidates and tracks
//! how much of the budget the caller has spent.

pub mod arm;
pub mod genetic;
mod sampling;
