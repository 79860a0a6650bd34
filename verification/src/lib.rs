//! A verified core for a multi-entrant Glicko-2 rating engine.
//!
//! The engine rates competitors in races with any number of entrants. A raw
//! race (entrant -> finish time or absent) is normalized, decomposed into
//! ordered pairwise results, and accumulated per player; on finalize, each
//! player receives a batch Glicko-2 update, or an inactivity-decay step if
//! they did not race.
//!
//! All real-valued arithmetic (scale conversion, percentile interpolation,
//! the volatility solver, the update formulas) is the job of an unverified
//! numeric host layer. This crate verifies everything decision-shaped:
//! input validation, the player store, pairing expansion and win/draw/loss
//! outcomes, quartile order-statistic positions, and the period bookkeeping
//! around the numeric results. Real numbers pass through the engine as
//! opaque 64-bit words that the engine never interprets; finish-time order
//! is communicated through order-preserving integer keys, so every ordering
//! decision is made, and proved, here.

use vstd::prelude::*;

pub mod config;
pub mod engine;
pub mod pairing;
pub mod player;
pub mod race;

verus! {

/// The errors a rating context can raise. All are input-validation failures
/// raised synchronously before any state mutation: a rejected call leaves
/// the player store unchanged.
#[derive(Clone, Copy, Debug, PartialEq, Eq, Structural)]
pub enum GlickoError {
    /// A constants mapping is missing one of the required keys or carries an
    /// unrecognized one.
    InvalidConfig,
    /// A seeded player record is missing one of the required keys or carries
    /// an unrecognized one.
    InvalidPlayerData,
    /// A race has fewer than two entrants or no finisher.
    InvalidRace,
}

/// A real-valued quantity as the numeric host layer hands it over: `bits`
/// is its opaque 64-bit encoding, which the engine stores and routes but
/// never interprets, and `whole` is the same value truncated to a whole
/// number, consulted only where the engine needs an actual count (the
/// multi-entrant cutoff and the inactive-period counter).
#[derive(Clone, Copy, Debug, PartialEq, Eq, Structural)]
pub struct RawNum {
    pub bits: u64,
    pub whole: u32,
}

} // verus!
