//! A stochastic multi-armed-bandit simulator with verified contracts: a
//! reward model of hidden per-arm success probabilities, an epsilon-greedy
//! selection strategy over exact rational value estimates, and a solver
//! that drives the interaction loop and tracks cumulative regret.
//!
//! Probabilities are fixed-point integers in [0, UNIT]; estimates are exact
//! rationals, so the incremental-mean bookkeeping carries no rounding.
//! Randomness enters only through an explicit RandomSource, which either
//! draws from the process-wide generator or replays a fixed sequence, so
//! runs can be made fully deterministic.

pub mod bandit;
pub mod rng;
pub mod solver;
pub mod strategy;
