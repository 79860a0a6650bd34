//! The per-player record: a rating state, the variance/delta carried across
//! an unfinalized period, the inactive-period counter, and the pairwise
//! results accumulated since the last finalize.

use vstd::prelude::*;

use crate::config::lookup_value;
use crate::RawNum;

verus! {

/// A rating state on the public display scale: the encodings of rating,
/// deviation and volatility as the numeric host layer produced them.
#[derive(Clone, Copy, Debug, PartialEq, Eq, Structural)]
pub struct RatingState {
    pub rating: u64,
    pub deviation: u64,
    pub volatility: u64,
}

/// The win/draw/loss outcome of one ordered pairwise comparison, decided by
/// adjusted finish time: lower time wins.
#[derive(Clone, Copy, Debug, PartialEq, Eq, Structural)]
pub enum Outcome {
    Win,
    Draw,
    Loss,
}

/// One pairwise result recorded against a player: the finisher count of the
/// field, the player's outcome and normalized score, and a snapshot of the
/// opponent's rating and normalized score at race time. Immutable once
/// created.
#[derive(Clone, Copy, Debug)]
pub struct RaceResult {
    pub race_size: u32,
    pub outcome: Outcome,
    pub self_norm: u64,
    pub opponent_rating: RatingState,
    pub opponent_norm: u64,
    pub timestamp: Option<i64>,
}

/// One player's record in the store.
#[derive(Clone, Debug)]
pub struct Player {
    pub rating: RatingState,
    pub variance: u64,
    pub delta: u64,
    pub inactive_periods: u32,
    pub races: Vec<RaceResult>,
}

/// The encoding of the real number zero, the value variance and delta reset
/// to.
pub const ZERO_BITS: u64 = 0;

/// A player freshly seeded from the context's initial constants: unrated,
/// with no carry-over and no pending results.
pub open spec fn unrated_player(p: Player, c: crate::config::GlickoConstants) -> bool {
    &&& p.rating == (RatingState {
        rating: c.initial_rating,
        deviation: c.initial_deviation,
        volatility: c.initial_volatility,
    })
    &&& p.variance == ZERO_BITS
    &&& p.delta == ZERO_BITS
    &&& p.inactive_periods == 0
    &&& p.races@ =~= Seq::<RaceResult>::empty()
}

/// A player seeded from a validated host record: each field is the value the
/// record supplies under the corresponding key, and the pending-result list
/// starts empty.
pub open spec fn seeded_from_record(p: Player, rec: Seq<(String, RawNum)>) -> bool {
    &&& p.rating == (RatingState {
        rating: lookup_value(rec, "rating"@)->0.bits,
        deviation: lookup_value(rec, "deviation"@)->0.bits,
        volatility: lookup_value(rec, "volatility"@)->0.bits,
    })
    &&& p.variance == lookup_value(rec, "variance"@)->0.bits
    &&& p.delta == lookup_value(rec, "delta"@)->0.bits
    &&& p.inactive_periods == lookup_value(rec, "inactive_periods"@)->0.whole
    &&& p.races@ =~= Seq::<RaceResult>::empty()
}

/// The post-update state of one player, as the finalize pass reports it to
/// the host: the six fields of the wire record.
#[derive(Clone, Copy, Debug, PartialEq, Eq, Structural)]
pub struct PlayerReport {
    pub rating: u64,
    pub deviation: u64,
    pub volatility: u64,
    pub variance: u64,
    pub delta: u64,
    pub inactive_periods: u32,
}

/// One pending result prepared for the numeric host layer: the stored
/// pairwise result together with the engine's decision whether the
/// field-size correction applies to it.
#[derive(Clone, Copy, Debug)]
pub struct RaceDatum {
    pub outcome: Outcome,
    pub self_norm: u64,
    pub opponent_rating: RatingState,
    pub opponent_norm: u64,
    pub race_size: u32,
    /// The field reached the multi-entrant cutoff, so the update weight is
    /// to be multiplied by the field-size correction.
    pub apply_correction: bool,
}

/// Everything the numeric host layer needs to update one player: the stored
/// state, the carry-over, and the pending results with their correction
/// decisions. `active` says which update runs: the batch update for a player
/// with pending results, the decay step otherwise.
#[derive(Clone, Debug)]
pub struct RankTask {
    pub name: String,
    pub rating: RatingState,
    pub variance: u64,
    pub delta: u64,
    pub inactive_periods: u32,
    pub active: bool,
    /// The player sat out a prior period as well, so the decay step also
    /// erodes the rating (meaningful only for an inactive player).
    pub decay_applies: bool,
    pub races: Vec<RaceDatum>,
}

/// The numeric host layer's answer for one player: the values only it can
/// compute. The engine routes them into the report and the store according
/// to the finalize flag; it never inspects them.
#[derive(Clone, Copy, Debug)]
pub enum KernelOutcome {
    /// For a player with pending results: the post-update rating state on
    /// display scale, the new volatility, and the period's variance and
    /// accumulated delta.
    Active { rating: u64, deviation: u64, volatility: u64, variance: u64, delta: u64 },
    /// For a player with no pending results: the rating (decayed if the
    /// engine said decay applies) and the grown deviation, on display scale.
    Inactive { rating: u64, deviation: u64 },
}

} // verus!
