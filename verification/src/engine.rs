//! The rating context: a player store keyed by name plus the current
//! constants. Races accumulate pairwise results per player; the finalize
//! pass hands each player's data to the numeric host layer and commits the
//! results according to the finalize flag.

use vstd::prelude::*;

use crate::pairing::index_pairs;
use crate::pairing::lemma_index_pairs_at;
use crate::pairing::ordered_index_pairs;
use crate::pairing::outcome_between;
use crate::pairing::outcome_of;
use crate::player::RaceResult;
use crate::race::build_plan;
use crate::race::collect_keys;
use crate::race::finisher_count;
use crate::race::lemma_present_keys_len;
use crate::race::plan_matches;
use crate::race::validate_race;
use crate::race::NormPlan;
use crate::config::config_key_names;
use crate::config::exact_key_set;
use crate::config::key_views;
use crate::config::lookup_value;
use crate::config::player_key_names;
use crate::config::spec_default_constants;
use crate::config::validate_constants;
use crate::config::validate_players;
use crate::config::get_value;
use crate::config::GlickoConstants;
use crate::player::seeded_from_record;
use crate::player::unrated_player;
use crate::player::KernelOutcome;
use crate::player::Player;
use crate::player::PlayerReport;
use crate::player::RaceDatum;
use crate::player::RankTask;
use crate::player::RatingState;
use crate::player::ZERO_BITS;
use crate::GlickoError;
use crate::RawNum;

verus! {

/// Pairwise-distinct names in a key/value list.
pub open spec fn distinct_names<V>(s: Seq<(String, V)>) -> bool {
    forall|i: int, j: int| 0 <= i < j < s.len() ==> s[i].0@ != s[j].0@
}

/// Whether some entry carries the given name.
pub open spec fn named_in<V>(s: Seq<(String, V)>, name: Seq<char>) -> bool {
    exists|i: int| 0 <= i < s.len() && s[i].0@ == name
}

/// The index of the first entry with the given name, or -1.
pub open spec fn index_of_name<V>(s: Seq<(String, V)>, name: Seq<char>) -> int
    decreases s.len(),
{
    if s.len() == 0 {
        -1
    } else if s[0].0@ == name {
        0
    } else {
        let r = index_of_name(s.drop_first(), name);
        if r < 0 {
            -1
        } else {
            1 + r
        }
    }
}

/// A name that occurs is found at a valid index, under its name.
pub proof fn lemma_index_of_name<V>(s: Seq<(String, V)>, name: Seq<char>)
    ensures
        named_in(s, name) ==> 0 <= index_of_name(s, name) < s.len() && s[index_of_name(
            s,
            name,
        )].0@ == name,
        !named_in(s, name) ==> index_of_name(s, name) == -1,
    decreases s.len(),
{
    if s.len() > 0 && s[0].0@ != name {
        lemma_index_of_name(s.drop_first(), name);
        if named_in(s, name) {
            let i = choose|i: int| 0 <= i < s.len() && s[i].0@ == name;
            assert(s.drop_first()[i - 1] == s[i]);
        }
        if named_in(s.drop_first(), name) {
            let r = index_of_name(s.drop_first(), name);
            assert(s[1 + r] == s.drop_first()[r]);
        }
    }
}

/// The entries whose names are not yet in the store, in input order.
pub open spec fn fresh_entries<V>(
    stored: Seq<(String, Player)>,
    entries: Seq<(String, V)>,
) -> Seq<(String, V)>
    decreases entries.len(),
{
    if entries.len() == 0 {
        entries
    } else {
        let prefix = fresh_entries(stored, entries.drop_last());
        if named_in(stored, entries.last().0@) {
            prefix
        } else {
            prefix.push(entries.last())
        }
    }
}

/// A rating context: the player store (names unique, insertion order kept)
/// and the constants in force.
pub struct MultiPeriod {
    pub players: Vec<(String, Player)>,
    pub constants: GlickoConstants,
}

impl MultiPeriod {
    /// Names in the store are unique.
    pub open spec fn wf(self) -> bool {
        distinct_names(self.players@)
    }

    /// A context with no players and the default constants.
    pub fn new() -> (s: MultiPeriod)
        ensures
            s.players@ =~= Seq::<(String, Player)>::empty(),
            s.constants == spec_default_constants(),
            s.wf(),
    {
        MultiPeriod { players: Vec::new(), constants: GlickoConstants::default() }
    }

    /// The store index of the named player, if known.
    pub fn find_index(&self, name: &String) -> (r: Option<usize>)
        ensures
            match r {
                Some(i) => i < self.players@.len() && self.players@[i as int].0@ == name@,
                None => !named_in(self.players@, name@),
            },
    {
        let mut i: usize = 0;
        while i < self.players.len()
            invariant
                0 <= i <= self.players@.len(),
                forall|k: int| 0 <= k < i ==> self.players@[k].0@ != name@,
            decreases self.players@.len() - i,
        {
            if self.players[i].0 == *name {
                return Some(i);
            }
            i += 1;
        }
        None
    }

    /// The names of all known players, in store order.
    pub fn get_players(&self) -> (r: Vec<String>)
        ensures
            r@.len() == self.players@.len(),
            forall|i: int| 0 <= i < r@.len() ==> r@[i] == self.players@[i].0,
    {
        let mut r: Vec<String> = Vec::new();
        let mut i: usize = 0;
        while i < self.players.len()
            invariant
                0 <= i <= self.players@.len(),
                r@.len() == i,
                forall|k: int| 0 <= k < i ==> r@[k] == self.players@[k].0,
            decreases self.players@.len() - i,
        {
            r.push(self.players[i].0.clone());
            i += 1;
        }
        r
    }

    /// The constants in force.
    pub fn get_constants(&self) -> (r: GlickoConstants)
        ensures
            r == self.constants,
    {
        self.constants
    }

    /// Replaces the volatility-change constraint.
    pub fn set_glicko_tau(&mut self, tau: u64)
        ensures
            final(self).constants == (GlickoConstants { glicko_tau: tau, ..old(self).constants }),
            final(self).players == old(self).players,
    {
        self.constants.glicko_tau = tau;
    }

    /// Replaces the multi-entrant slope.
    pub fn set_multi_slope(&mut self, slope: u64)
        ensures
            final(self).constants == (GlickoConstants {
                multi_slope: slope,
                ..old(self).constants
            }),
            final(self).players == old(self).players,
    {
        self.constants.multi_slope = slope;
    }

    /// Replaces the multi-entrant cutoff.
    pub fn set_multi_cutoff(&mut self, cutoff: u32)
        ensures
            final(self).constants == (GlickoConstants {
                multi_cutoff: cutoff,
                ..old(self).constants
            }),
            final(self).players == old(self).players,
    {
        self.constants.multi_cutoff = cutoff;
    }

    /// Replaces the normalization factor.
    pub fn set_norm_factor(&mut self, factor: u64)
        ensures
            final(self).constants == (GlickoConstants {
                norm_factor: factor,
                ..old(self).constants
            }),
            final(self).players == old(self).players,
    {
        self.constants.norm_factor = factor;
    }

    /// Replaces the initial rating.
    pub fn set_initial_rating(&mut self, rating: u64)
        ensures
            final(self).constants == (GlickoConstants {
                initial_rating: rating,
                ..old(self).constants
            }),
            final(self).players == old(self).players,
    {
        self.constants.initial_rating = rating;
    }

    /// Replaces the initial deviation.
    pub fn set_initial_deviation(&mut self, deviation: u64)
        ensures
            final(self).constants == (GlickoConstants {
                initial_deviation: deviation,
                ..old(self).constants
            }),
            final(self).players == old(self).players,
    {
        self.constants.initial_deviation = deviation;
    }

    /// Replaces the initial volatility.
    pub fn set_initial_volatility(&mut self, vol: u64)
        ensures
            final(self).constants == (GlickoConstants {
                initial_volatility: vol,
                ..old(self).constants
            }),
            final(self).players == old(self).players,
    {
        self.constants.initial_volatility = vol;
    }

    /// Replaces the whole constants block from a host mapping. Accepts the
    /// mapping exactly when it supplies each of the seven constants keys
    /// once and nothing else; a rejected mapping leaves the context
    /// unchanged.
    pub fn set_constants(&mut self, entries: &Vec<(String, RawNum)>) -> (r: Result<
        (),
        GlickoError,
    >)
        ensures
            r is Ok <==> exact_key_set(key_views(entries@), config_key_names()),
            r is Err ==> *final(self) == *old(self) && r == Err::<(), GlickoError>(
                GlickoError::InvalidConfig,
            ),
            r is Ok ==> final(self).players == old(self).players && final(self).constants == (
            GlickoConstants {
                glicko_tau: lookup_value(entries@, "tau"@)->0.bits,
                multi_slope: lookup_value(entries@, "multi_slope"@)->0.bits,
                multi_cutoff: lookup_value(entries@, "multi_cutoff"@)->0.whole,
                norm_factor: lookup_value(entries@, "norm_factor"@)->0.bits,
                initial_rating: lookup_value(entries@, "initial_rating"@)->0.bits,
                initial_deviation: lookup_value(entries@, "initial_deviation"@)->0.bits,
                initial_volatility: lookup_value(entries@, "initial_volatility"@)->0.bits,
            }),
    {
        match validate_constants(entries) {
            Err(e) => {
                return Err(e);
            },
            Ok(()) => {},
        }
        proof {
            assert forall|i: int| 0 <= i < config_key_names().len() implies lookup_value(
                entries@,
                config_key_names()[i],
            ) is Some by {
                crate::config::lemma_lookup_present(entries@, config_key_names()[i]);
            }
            assert(config_key_names()[0] == "tau"@);
            assert(config_key_names()[1] == "multi_slope"@);
            assert(config_key_names()[2] == "multi_cutoff"@);
            assert(config_key_names()[3] == "norm_factor"@);
            assert(config_key_names()[4] == "initial_rating"@);
            assert(config_key_names()[5] == "initial_deviation"@);
            assert(config_key_names()[6] == "initial_volatility"@);
        }
        let tau = get_value(entries, &"tau".to_owned()).unwrap();
        let multi_slope = get_value(entries, &"multi_slope".to_owned()).unwrap();
        let multi_cutoff = get_value(entries, &"multi_cutoff".to_owned()).unwrap();
        let norm_factor = get_value(entries, &"norm_factor".to_owned()).unwrap();
        let initial_rating = get_value(entries, &"initial_rating".to_owned()).unwrap();
        let initial_deviation = get_value(entries, &"initial_deviation".to_owned()).unwrap();
        let initial_volatility = get_value(entries, &"initial_volatility".to_owned()).unwrap();
        self.constants = GlickoConstants {
            glicko_tau: tau.bits,
            multi_slope: multi_slope.bits,
            multi_cutoff: multi_cutoff.whole,
            norm_factor: norm_factor.bits,
            initial_rating: initial_rating.bits,
            initial_deviation: initial_deviation.bits,
            initial_volatility: initial_volatility.bits,
        };
        Ok(())
    }

    /// Seeds (or re-seeds) players from validated host records. Accepts the
    /// input exactly when every record supplies each of the six player keys
    /// once and nothing else; a rejected input leaves the context unchanged.
    /// A record for a known player replaces that player's state in place; a
    /// record for a new name appends an entry, in input order.
    pub fn add_players(&mut self, records: &Vec<(String, Vec<(String, RawNum)>)>) -> (r: Result<
        (),
        GlickoError,
    >)
        requires
            old(self).wf(),
            distinct_names(records@),
        ensures
            r is Ok <==> (forall|i: int|
                0 <= i < records@.len() ==> exact_key_set(
                    key_views(#[trigger] records@[i].1@),
                    player_key_names(),
                )),
            r is Err ==> *final(self) == *old(self) && r == Err::<(), GlickoError>(
                GlickoError::InvalidPlayerData,
            ),
            r is Ok ==> {
                &&& final(self).constants == old(self).constants
                &&& final(self).wf()
                &&& final(self).players@.len() == old(self).players@.len() + fresh_entries(
                    old(self).players@,
                    records@,
                ).len()
                &&& (forall|i: int|
                    0 <= i < old(self).players@.len() ==> final(self).players@[i].0 == old(
                        self,
                    ).players@[i].0)
                &&& (forall|i: int|
                    0 <= i < old(self).players@.len() && !named_in(
                        records@,
                        old(self).players@[i].0@,
                    ) ==> final(self).players@[i].1 == old(self).players@[i].1)
                &&& (forall|i: int, j: int|
                    0 <= i < old(self).players@.len() && 0 <= j < records@.len() && (
                    #[trigger] records@[j].0@) == (#[trigger] old(self).players@[i].0@)
                        ==> seeded_from_record(final(self).players@[i].1, records@[j].1@))
                &&& (forall|t: int|
                    0 <= t < fresh_entries(old(self).players@, records@).len() ==> {
                        let fr = #[trigger] fresh_entries(old(self).players@, records@)[t];
                        let np = final(self).players@[old(self).players@.len() + t];
                        np.0 == fr.0 && seeded_from_record(np.1, fr.1@)
                    })
            },
    {
        match validate_players(records) {
            Err(e) => {
                return Err(e);
            },
            Ok(()) => {},
        }
        let ghost old_store = self.players@;
        let ghost old_len = self.players@.len() as int;
        let mut k: usize = 0;
        proof {
            assert(records@.take(0) =~= Seq::<(String, Vec<(String, RawNum)>)>::empty());
        }
        while k < records.len()
            invariant
                self.wf(),
                distinct_names(records@),
                self.constants == old(self).constants,
                old_store == old(self).players@,
                old_len == old_store.len() as int,
                0 <= k <= records@.len(),
                forall|i: int|
                    0 <= i < records@.len() ==> exact_key_set(
                        key_views(#[trigger] records@[i].1@),
                        player_key_names(),
                    ),
                self.players@.len() == old_len + fresh_entries(
                    old_store,
                    records@.take(k as int),
                ).len(),
                forall|i: int| 0 <= i < old_len ==> self.players@[i].0 == old_store[i].0,
                forall|i: int|
                    0 <= i < old_len && !named_in(records@.take(k as int), old_store[i].0@)
                        ==> self.players@[i].1 == old_store[i].1,
                forall|i: int, j: int|
                    0 <= i < old_len && 0 <= j < k && (#[trigger] records@[j].0@) == (
                    #[trigger] old_store[i].0@) ==> seeded_from_record(
                        self.players@[i].1,
                        records@[j].1@,
                    ),
                forall|t: int|
                    0 <= t < fresh_entries(old_store, records@.take(k as int)).len() ==> {
                        let fr = #[trigger] fresh_entries(old_store, records@.take(k as int))[t];
                        let np = self.players@[old_len + t];
                        np.0 == fr.0 && seeded_from_record(np.1, fr.1@)
                    },
            decreases records@.len() - k,
        {
            let ghost pre = self.players@;
            let ghost fresh_pre = fresh_entries(old_store, records@.take(k as int));
            let rec = &records[k].1;
            proof {
                assert(exact_key_set(key_views(records@[k as int].1@), player_key_names()));
                assert forall|i: int| 0 <= i < player_key_names().len() implies lookup_value(
                    rec@,
                    player_key_names()[i],
                ) is Some by {
                    crate::config::lemma_lookup_present(rec@, player_key_names()[i]);
                }
                assert(player_key_names()[0] == "rating"@);
                assert(player_key_names()[1] == "deviation"@);
                assert(player_key_names()[2] == "volatility"@);
                assert(player_key_names()[3] == "variance"@);
                assert(player_key_names()[4] == "delta"@);
                assert(player_key_names()[5] == "inactive_periods"@);
            }
            let rating = get_value(rec, &"rating".to_owned()).unwrap();
            let deviation = get_value(rec, &"deviation".to_owned()).unwrap();
            let volatility = get_value(rec, &"volatility".to_owned()).unwrap();
            let variance = get_value(rec, &"variance".to_owned()).unwrap();
            let delta = get_value(rec, &"delta".to_owned()).unwrap();
            let inactive = get_value(rec, &"inactive_periods".to_owned()).unwrap();
            let p = Player {
                rating: RatingState {
                    rating: rating.bits,
                    deviation: deviation.bits,
                    volatility: volatility.bits,
                },
                variance: variance.bits,
                delta: delta.bits,
                inactive_periods: inactive.whole,
                races: Vec::new(),
            };
            proof {
                assert(seeded_from_record(p, records@[k as int].1@));
            }
            match self.find_index(&records[k].0) {
                Some(i) => {
                    proof {
                        // the matched entry sits in the old region: the appended
                        // tail carries names of earlier records, all distinct
                        // from this record's name
                        if i >= old_len {
                            let t = i - old_len;
                            lemma_fresh_entries_named(old_store, records@.take(k as int), t);
                            let fr = fresh_pre[t];
                            assert(self.players@[i as int].0 == fr.0);
                            let j = choose|j: int|
                                0 <= j < records@.take(k as int).len() && records@.take(
                                    k as int,
                                )[j].0@ == fr.0@;
                            assert(records@.take(k as int)[j] == records@[j]);
                            assert(records@[j].0@ == records@[k as int].0@);
                            assert(false);
                        }
                        assert(old_store[i as int].0@ == records@[k as int].0@);
                        assert(named_in(old_store, records@[k as int].0@));
                    }
                    self.players[i].1 = p;
                },
                None => {
                    proof {
                        if named_in(old_store, records@[k as int].0@) {
                            let w = choose|w: int|
                                0 <= w < old_store.len() && old_store[w].0@ == records@[
                                    k as int
                                ].0@;
                            assert(self.players@[w].0@ == records@[k as int].0@);
                            assert(false);
                        }
                    }
                    self.players.push((records[k].0.clone(), p));
                },
            }
            proof {
                assert(records@.take(k as int + 1).drop_last() =~= records@.take(k as int));
                assert(records@.take(k as int + 1).last() == records@[k as int]);
                if named_in(old_store, records@[k as int].0@) {
                    assert(fresh_entries(old_store, records@.take(k as int + 1)) == fresh_pre);
                } else {
                    assert(fresh_entries(old_store, records@.take(k as int + 1)) == fresh_pre.push(
                        records@[k as int],
                    ));
                }
                assert forall|i: int|
                    0 <= i < old_len && !named_in(
                        records@.take(k as int + 1),
                        old_store[i].0@,
                    ) implies self.players@[i].1 == old_store[i].1 by {
                    assert forall|j: int|
                        0 <= j < k as int implies records@.take(k as int)[j].0@
                        != old_store[i].0@ by {
                        assert(records@.take(k as int + 1)[j] == records@[j]);
                    }
                    assert(!named_in(records@.take(k as int), old_store[i].0@));
                }
            }
            k += 1;
        }
        proof {
            assert(records@.take(records@.len() as int) =~= records@);
        }
        Ok(())
    }
}

/// The fields of a player entry other than its pending results are kept.
pub open spec fn same_player_except_races(a: (String, Player), b: (String, Player)) -> bool {
    &&& b.0 == a.0
    &&& b.1.rating == a.1.rating
    &&& b.1.variance == a.1.variance
    &&& b.1.delta == a.1.delta
    &&& b.1.inactive_periods == a.1.inactive_periods
}

/// The pairwise result recorded for entrant `i` against entrant `j`: the
/// field's finisher count, `i`'s outcome and normalized score, and a
/// snapshot of `j`'s stored rating and normalized score.
pub open spec fn expected_result(
    race: Seq<(String, Option<u64>)>,
    scores: Seq<u64>,
    stored: Seq<(String, Player)>,
    i: int,
    j: int,
) -> RaceResult {
    RaceResult {
        race_size: finisher_count(race) as u32,
        outcome: outcome_of(race[i].1, race[j].1),
        self_norm: scores[i],
        opponent_rating: stored[index_of_name(stored, race[j].0@)].1.rating,
        opponent_norm: scores[j],
        timestamp: None::<i64>,
    }
}

/// The results appended for entrant `i`: one against each other entrant, in
/// ascending entrant order.
pub open spec fn appended_results(
    race: Seq<(String, Option<u64>)>,
    scores: Seq<u64>,
    stored: Seq<(String, Player)>,
    i: int,
) -> Seq<RaceResult> {
    Seq::new(
        (race.len() - 1) as nat,
        |q: int|
            expected_result(
                race,
                scores,
                stored,
                i,
                if q < i {
                    q
                } else {
                    q + 1
                },
            ),
    )
}

/// Every name in the fresh tail came from the given entries.
pub proof fn lemma_fresh_entries_named<V>(
    stored: Seq<(String, Player)>,
    entries: Seq<(String, V)>,
    t: int,
)
    requires
        0 <= t < fresh_entries(stored, entries).len(),
    ensures
        named_in(entries, fresh_entries(stored, entries)[t].0@),
        !named_in(stored, fresh_entries(stored, entries)[t].0@),
    decreases entries.len(),
{
    if entries.len() > 0 {
        let prefix = fresh_entries(stored, entries.drop_last());
        if t < prefix.len() {
            lemma_fresh_entries_named(stored, entries.drop_last(), t);
            let j = choose|j: int|
                0 <= j < entries.drop_last().len() && entries.drop_last()[j].0@ == prefix[t].0@;
            assert(entries[j] == entries.drop_last()[j]);
        } else {
            assert(fresh_entries(stored, entries)[t] == entries.last());
            assert(entries[entries.len() - 1] == entries.last());
        }
    }
}

/// An entry whose name is not stored appears in the fresh tail.
pub proof fn lemma_fresh_entries_complete<V>(
    stored: Seq<(String, Player)>,
    entries: Seq<(String, V)>,
    a: int,
)
    requires
        0 <= a < entries.len(),
        !named_in(stored, entries[a].0@),
    ensures
        exists|t: int|
            0 <= t < fresh_entries(stored, entries).len() && #[trigger] fresh_entries(
                stored,
                entries,
            )[t] == entries[a],
    decreases entries.len(),
{
    let fresh = fresh_entries(stored, entries);
    let prefix = fresh_entries(stored, entries.drop_last());
    if a == entries.len() - 1 {
        assert(fresh == prefix.push(entries.last()));
        assert(fresh[fresh.len() - 1] == entries[a]);
    } else {
        assert(entries.drop_last()[a] == entries[a]);
        lemma_fresh_entries_complete(stored, entries.drop_last(), a);
        let t = choose|t: int|
            0 <= t < prefix.len() && #[trigger] prefix[t] == entries.drop_last()[a];
        assert(fresh[t] == entries[a]);
    }
}

impl MultiPeriod {
    /// Validates and registers a race: every entrant unknown to the store is
    /// seeded as an unrated player from the current constants, in race
    /// order, and the normalization plan for the numeric host layer is
    /// returned. Fails with `InvalidRace` exactly when the race has fewer
    /// than two entrants or no finisher; a rejected race leaves the context
    /// unchanged.
    pub fn add_race(&mut self, race: &Vec<(String, Option<u64>)>) -> (r: Result<
        NormPlan,
        GlickoError,
    >)
        requires
            old(self).wf(),
            distinct_names(race@),
            race@.len() <= u32::MAX,
        ensures
            r is Ok <==> (race@.len() >= 2 && finisher_count(race@) >= 1),
            r is Err ==> *final(self) == *old(self) && r == Err::<NormPlan, GlickoError>(
                GlickoError::InvalidRace,
            ),
            r is Ok ==> {
                &&& plan_matches(r->Ok_0, race@)
                &&& final(self).constants == old(self).constants
                &&& final(self).wf()
                &&& final(self).players@.len() == old(self).players@.len() + fresh_entries(
                    old(self).players@,
                    race@,
                ).len()
                &&& (forall|i: int|
                    0 <= i < old(self).players@.len() ==> final(self).players@[i] == old(
                        self,
                    ).players@[i])
                &&& (forall|t: int|
                    0 <= t < fresh_entries(old(self).players@, race@).len() ==> {
                        let fr = #[trigger] fresh_entries(old(self).players@, race@)[t];
                        let np = final(self).players@[old(self).players@.len() + t];
                        np.0 == fr.0 && unrated_player(np.1, old(self).constants)
                    })
                &&& (forall|a: int|
                    0 <= a < race@.len() ==> named_in(final(self).players@, #[trigger] race@[a].0@))
            },
    {
        match validate_race(race) {
            Err(e) => {
                return Err(e);
            },
            Ok(()) => {},
        }
        let ghost old_store = self.players@;
        let ghost old_len = self.players@.len() as int;
        let mut a: usize = 0;
        proof {
            assert(race@.take(0) =~= Seq::<(String, Option<u64>)>::empty());
        }
        while a < race.len()
            invariant
                self.wf(),
                distinct_names(race@),
                self.constants == old(self).constants,
                old_store == old(self).players@,
                old_len == old_store.len() as int,
                0 <= a <= race@.len(),
                self.players@.len() == old_len + fresh_entries(
                    old_store,
                    race@.take(a as int),
                ).len(),
                forall|i: int| 0 <= i < old_len ==> self.players@[i] == old_store[i],
                forall|t: int|
                    0 <= t < fresh_entries(old_store, race@.take(a as int)).len() ==> {
                        let fr = #[trigger] fresh_entries(old_store, race@.take(a as int))[t];
                        let np = self.players@[old_len + t];
                        np.0 == fr.0 && unrated_player(np.1, old(self).constants)
                    },
            decreases race@.len() - a,
        {
            let ghost fresh_pre = fresh_entries(old_store, race@.take(a as int));
            match self.find_index(&race[a].0) {
                Some(found) => {
                    proof {
                        // already stored: either an original entry or one seeded
                        // for an earlier entrant of this race
                        let i = found as int;
                        if i >= old_len {
                            let t = i - old_len;
                            lemma_fresh_entries_named(old_store, race@.take(a as int), t);
                            let fr = fresh_pre[t];
                            let j = choose|j: int|
                                0 <= j < race@.take(a as int).len() && race@.take(a as int)[j].0@
                                    == fr.0@;
                            assert(race@.take(a as int)[j] == race@[j]);
                            assert(race@[j].0@ == race@[a as int].0@);
                            assert(false);
                        }
                        assert(old_store[i].0@ == race@[a as int].0@);
                        assert(named_in(old_store, race@[a as int].0@));
                    }
                },
                None => {
                    proof {
                        if named_in(old_store, race@[a as int].0@) {
                            let w = choose|w: int|
                                0 <= w < old_store.len() && old_store[w].0@ == race@[a as int].0@;
                            assert(self.players@[w].0@ == race@[a as int].0@);
                            assert(false);
                        }
                    }
                    let p = Player {
                        rating: RatingState {
                            rating: self.constants.initial_rating,
                            deviation: self.constants.initial_deviation,
                            volatility: self.constants.initial_volatility,
                        },
                        variance: crate::player::ZERO_BITS,
                        delta: crate::player::ZERO_BITS,
                        inactive_periods: 0,
                        races: Vec::new(),
                    };
                    self.players.push((race[a].0.clone(), p));
                },
            }
            proof {
                assert(race@.take(a as int + 1).drop_last() =~= race@.take(a as int));
                assert(race@.take(a as int + 1).last() == race@[a as int]);
                if named_in(old_store, race@[a as int].0@) {
                    assert(fresh_entries(old_store, race@.take(a as int + 1)) == fresh_pre);
                } else {
                    assert(fresh_entries(old_store, race@.take(a as int + 1)) == fresh_pre.push(
                        race@[a as int],
                    ));
                }
                let fresh_post = fresh_entries(old_store, race@.take(a as int + 1));
                assert forall|t: int| 0 <= t < fresh_post.len() implies {
                    let fr = #[trigger] fresh_post[t];
                    let np = self.players@[old_len + t];
                    np.0 == fr.0 && unrated_player(np.1, old(self).constants)
                } by {
                    if t < fresh_pre.len() {
                        assert(fresh_post[t] == fresh_pre[t]);
                    } else {
                        assert(fresh_post[t] == race@[a as int]);
                        assert(self.players@[old_len + t] == self.players@[self.players@.len()
                            - 1]);
                    }
                }
            }
            a += 1;
        }
        proof {
            assert(race@.take(race@.len() as int) =~= race@);
            assert forall|b: int| 0 <= b < race@.len() implies named_in(
                self.players@,
                #[trigger] race@[b].0@,
            ) by {
                if named_in(old_store, race@[b].0@) {
                    let w = choose|w: int|
                        0 <= w < old_store.len() && old_store[w].0@ == race@[b].0@;
                    assert(self.players@[w].0@ == race@[b].0@);
                } else {
                    lemma_fresh_entries_complete(old_store, race@, b);
                    let t = choose|t: int|
                        0 <= t < fresh_entries(old_store, race@).len() && #[trigger] fresh_entries(
                            old_store,
                            race@,
                        )[t] == race@[b];
                    assert(self.players@[old_len + t].0@ == race@[b].0@);
                }
            }
        }
        let plan = build_plan(race);
        Ok(plan)
    }

    /// Expands a race into its ordered pairwise results and appends each to
    /// the left entrant's pending list: for every ordered pair of distinct
    /// entrants, the outcome scored from adjusted times, the two normalized
    /// scores the numeric host layer computed (one word per entrant, in race
    /// order), and a snapshot of the opponent's current rating. Everything
    /// else about the store is kept.
    pub fn make_pairings(&mut self, race: &Vec<(String, Option<u64>)>, scores: &Vec<u64>)
        requires
            old(self).wf(),
            distinct_names(race@),
            scores@.len() == race@.len(),
            race@.len() <= u32::MAX,
            race@.len() * (race@.len() - 1) <= usize::MAX,
            forall|a: int|
                0 <= a < race@.len() ==> named_in(old(self).players@, #[trigger] race@[a].0@),
        ensures
            final(self).constants == old(self).constants,
            final(self).wf(),
            final(self).players@.len() == old(self).players@.len(),
            forall|s: int|
                0 <= s < old(self).players@.len() ==> same_player_except_races(
                    old(self).players@[s],
                    #[trigger] final(self).players@[s],
                ),
            forall|a: int|
                0 <= a < race@.len() ==> {
                    let w = index_of_name(old(self).players@, (#[trigger] race@[a]).0@);
                    final(self).players@[w].1.races@ == old(self).players@[w].1.races@
                        + appended_results(race@, scores@, old(self).players@, a)
                },
            forall|s: int|
                0 <= s < old(self).players@.len() && !named_in(
                    race@,
                    (#[trigger] old(self).players@[s]).0@,
                ) ==> final(self).players@[s].1.races == old(self).players@[s].1.races,
    {
        let ghost st0 = self.players@;
        let n = race.len();
        if n < 2 {
            proof {
                assert forall|a: int| 0 <= a < race@.len() implies {
                    let w = index_of_name(st0, (#[trigger] race@[a]).0@);
                    self.players@[w].1.races@ == st0[w].1.races@ + appended_results(
                        race@,
                        scores@,
                        st0,
                        a,
                    )
                } by {
                    let w = index_of_name(st0, race@[a].0@);
                    lemma_index_of_name(st0, race@[a].0@);
                    assert(appended_results(race@, scores@, st0, a) =~= Seq::<
                        RaceResult,
                    >::empty());
                    assert(st0[w].1.races@ + appended_results(race@, scores@, st0, a) =~= st0[
                        w
                    ].1.races@);
                }
            }
            return ;
        }
        let keys = collect_keys(race);
        let fin = keys.len();
        proof {
            lemma_present_keys_len(race@);
        }
        let pairs = ordered_index_pairs(n);
        let mut i: usize = 0;
        while i < n
            invariant
                self.wf(),
                distinct_names(race@),
                st0 == old(self).players@,
                self.constants == old(self).constants,
                2 <= n == race@.len() <= u32::MAX,
                race@.len() * (race@.len() - 1) <= usize::MAX,
                scores@.len() == race@.len(),
                fin == finisher_count(race@),
                pairs@ == index_pairs(n as int),
                0 <= i <= n,
                forall|a: int| 0 <= a < race@.len() ==> named_in(st0, #[trigger] race@[a].0@),
                self.players@.len() == st0.len(),
                forall|s: int|
                    0 <= s < st0.len() ==> same_player_except_races(
                        st0[s],
                        #[trigger] self.players@[s],
                    ),
                forall|a: int|
                    0 <= a < i ==> {
                        let w = index_of_name(st0, (#[trigger] race@[a]).0@);
                        self.players@[w].1.races@ == st0[w].1.races@ + appended_results(
                            race@,
                            scores@,
                            st0,
                            a,
                        )
                    },
                forall|a: int|
                    i <= a < race@.len() ==> {
                        let w = index_of_name(st0, (#[trigger] race@[a]).0@);
                        self.players@[w].1.races@ == st0[w].1.races@
                    },
                forall|s: int|
                    0 <= s < st0.len() && !named_in(race@, (#[trigger] st0[s]).0@)
                        ==> self.players@[s].1.races == st0[s].1.races,
            decreases n - i,
        {
            proof {
                lemma_index_of_name(st0, race@[i as int].0@);
            }
            let ghost w_i = index_of_name(st0, race@[i as int].0@);
            let idx_i = match self.find_index(&race[i].0) {
                Some(x) => x,
                None => {
                    proof {
                        assert(self.players@[w_i].0@ == race@[i as int].0@);
                        assert(false);
                    }
                    vstd::pervasive::unreached()
                },
            };
            proof {
                // the found index carries the entrant's name, and names are
                // unique, so it is the entrant's store index
                assert(self.players@[idx_i as int].0 == st0[idx_i as int].0);
                assert(st0[w_i].0 == self.players@[w_i].0);
                assert(idx_i as int == w_i);
            }
            let ghost app_i = appended_results(race@, scores@, st0, i as int);
            let ghost races0 = self.players@[w_i].1.races@;
            let mut q: usize = 0;
            proof {
                assert(races0 + app_i.take(0) =~= races0);
            }
            while q < n - 1
                invariant
                    self.wf(),
                    distinct_names(race@),
                    st0 == old(self).players@,
                    self.constants == old(self).constants,
                    2 <= n == race@.len() <= u32::MAX,
                    race@.len() * (race@.len() - 1) <= usize::MAX,
                    scores@.len() == race@.len(),
                    fin == finisher_count(race@),
                    pairs@ == index_pairs(n as int),
                    0 <= i < n,
                    0 <= q <= n - 1,
                    forall|a: int| 0 <= a < race@.len() ==> named_in(st0, #[trigger] race@[a].0@),
                    self.players@.len() == st0.len(),
                    idx_i < st0.len(),
                    idx_i as int == w_i,
                    w_i == index_of_name(st0, race@[i as int].0@),
                    app_i == appended_results(race@, scores@, st0, i as int),
                    races0 == st0[w_i].1.races@,
                    self.players@[w_i].1.races@ == races0 + app_i.take(q as int),
                    forall|s: int|
                        0 <= s < st0.len() ==> same_player_except_races(
                            st0[s],
                            #[trigger] self.players@[s],
                        ),
                    forall|a: int|
                        0 <= a < i ==> {
                            let w = index_of_name(st0, (#[trigger] race@[a]).0@);
                            self.players@[w].1.races@ == st0[w].1.races@ + appended_results(
                                race@,
                                scores@,
                                st0,
                                a,
                            )
                        },
                    forall|a: int|
                        i < a < race@.len() ==> {
                            let w = index_of_name(st0, (#[trigger] race@[a]).0@);
                            self.players@[w].1.races@ == st0[w].1.races@
                        },
                    forall|s: int|
                        0 <= s < st0.len() && !named_in(race@, (#[trigger] st0[s]).0@)
                            ==> self.players@[s].1.races == st0[s].1.races,
                decreases n - 1 - q,
            {
                proof {
                    lemma_index_of_name(st0, race@[i as int].0@);
                    lemma_index_pairs_at(n as int, i as int, q as int);
                    assert((i * (n - 1) + q) as int == (i as int) * (n as int - 1) + (q as int))
                        by (nonlinear_arith)
                        requires
                            0 <= i < n,
                            0 <= q < (n - 1),
                            (n as int) * (n as int - 1) <= usize::MAX,
                    ;
                }
                let k = i * (n - 1) + q;
                let pr = pairs[k];
                let j = pr.1;
                proof {
                    assert(j == if (q as int) < (i as int) {
                        q as int
                    } else {
                        q as int + 1
                    });
                    assert(j < n);
                    assert(j != i);
                    lemma_index_of_name(st0, race@[j as int].0@);
                }
                let ghost w_j = index_of_name(st0, race@[j as int].0@);
                let idx_j = match self.find_index(&race[j].0) {
                    Some(x) => x,
                    None => {
                        proof {
                            assert(self.players@[w_j].0@ == race@[j as int].0@);
                            assert(false);
                        }
                        vstd::pervasive::unreached()
                    },
                };
                proof {
                    assert(self.players@[idx_j as int].0 == st0[idx_j as int].0);
                    assert(st0[w_j].0 == self.players@[w_j].0);
                    assert(idx_j as int == w_j);
                }
                let opp_rating = self.players[idx_j].1.rating;
                let oc = outcome_between(race[i].1, race[j].1);
                let result = RaceResult {
                    race_size: fin as u32,
                    outcome: oc,
                    self_norm: scores[i],
                    opponent_rating: opp_rating,
                    opponent_norm: scores[j],
                    timestamp: None,
                };
                proof {
                    assert(opp_rating == st0[w_j].1.rating);
                    assert(result == expected_result(race@, scores@, st0, i as int, j as int));
                    assert(app_i[q as int] == expected_result(
                        race@,
                        scores@,
                        st0,
                        i as int,
                        j as int,
                    ));
                    assert(app_i.take(q as int + 1) =~= app_i.take(q as int).push(
                        app_i[q as int],
                    ));
                }
                let ghost pre = self.players@;
                self.players[idx_i].1.races.push(result);
                proof {
                    assert(self.players@ =~= pre.update(
                        w_i,
                        (
                            pre[w_i].0,
                            Player {
                                races: self.players@[w_i].1.races,
                                ..pre[w_i].1
                            },
                        ),
                    ));
                    assert forall|a: int| 0 <= a < i implies {
                        let w = index_of_name(st0, (#[trigger] race@[a]).0@);
                        self.players@[w].1.races@ == st0[w].1.races@ + appended_results(
                            race@,
                            scores@,
                            st0,
                            a,
                        )
                    } by {
                        lemma_index_of_name(st0, race@[a].0@);
                        let w = index_of_name(st0, race@[a].0@);
                        assert(st0[w].0@ == race@[a].0@);
                        assert(st0[w_i].0@ == race@[i as int].0@);
                        assert(w != w_i);
                    }
                    assert forall|a: int| i < a < race@.len() implies {
                        let w = index_of_name(st0, (#[trigger] race@[a]).0@);
                        self.players@[w].1.races@ == st0[w].1.races@
                    } by {
                        lemma_index_of_name(st0, race@[a].0@);
                        let w = index_of_name(st0, race@[a].0@);
                        assert(st0[w].0@ == race@[a].0@);
                        assert(st0[w_i].0@ == race@[i as int].0@);
                        assert(w != w_i);
                    }
                    assert forall|s: int|
                        0 <= s < st0.len() && !named_in(race@, (#[trigger] st0[s]).0@) implies
                        self.players@[s].1.races == st0[s].1.races by {
                        assert(st0[w_i].0@ == race@[i as int].0@);
                        assert(s != w_i);
                    }
                }
                q += 1;
            }
            proof {
                assert(app_i.take(n as int - 1) =~= app_i);
            }
            i += 1;
        }
    }
}

/// Law: in a race where every entrant finished with the identical time,
/// every pairwise result the expansion records is a draw.
pub proof fn lemma_identical_times_pairings_draw(
    race: Seq<(String, Option<u64>)>,
    scores: Seq<u64>,
    stored: Seq<(String, Player)>,
    a: int,
    q: int,
)
    requires
        forall|k: int| 0 <= k < race.len() ==> (#[trigger] race[k].1) is Some,
        forall|k: int, l: int|
            0 <= k < race.len() && 0 <= l < race.len() ==> (#[trigger] race[k].1) == (
            #[trigger] race[l].1),
        0 <= a < race.len(),
        0 <= q < race.len() - 1,
    ensures
        appended_results(race, scores, stored, a)[q].outcome == crate::player::Outcome::Draw,
{
    let j = if q < a {
        q
    } else {
        q + 1
    };
    crate::pairing::lemma_identical_times_all_draw(race, a, j);
}

/// A host datum mirrors a stored pairwise result, with the engine's decision
/// whether the field reached the multi-entrant cutoff.
pub open spec fn datum_matches(d: RaceDatum, r: RaceResult, cutoff: u32) -> bool {
    &&& d.outcome == r.outcome
    &&& d.self_norm == r.self_norm
    &&& d.opponent_rating == r.opponent_rating
    &&& d.opponent_norm == r.opponent_norm
    &&& d.race_size == r.race_size
    &&& d.apply_correction == (r.race_size >= cutoff)
}

/// A task mirrors one stored player: state, carry-over, activity, the decay
/// decision, and one datum per pending result, in order.
pub open spec fn task_matches(t: RankTask, name: String, p: Player, cutoff: u32) -> bool {
    &&& t.name == name
    &&& t.rating == p.rating
    &&& t.variance == p.variance
    &&& t.delta == p.delta
    &&& t.inactive_periods == p.inactive_periods
    &&& t.active == (p.races@.len() > 0)
    &&& t.decay_applies == (p.races@.len() == 0 && p.inactive_periods > 0)
    &&& t.races@.len() == p.races@.len()
    &&& (forall|k: int|
        0 <= k < p.races@.len() ==> datum_matches(#[trigger] t.races@[k], p.races@[k], cutoff))
}

/// The kernel answered in the form the player's activity calls for.
pub open spec fn outcome_matches_player(p: Player, o: KernelOutcome) -> bool {
    o is Active <==> p.races@.len() > 0
}

/// The wire record the finalize pass produces for one player. For an active
/// player: the kernel's rating and deviation; on a period end, the kernel's
/// new volatility with variance and delta reset, otherwise the pre-update
/// volatility with the kernel's variance and delta persisted as carry-over;
/// the inactive-period counter resets. For an inactive player: the kernel's
/// rating and deviation, the volatility carried unchanged, variance and
/// delta reset, and the inactive-period counter incremented by exactly one.
pub open spec fn report_for(p: Player, outc: KernelOutcome, end: bool) -> PlayerReport {
    match outc {
        KernelOutcome::Active { rating, deviation, volatility, variance, delta } => PlayerReport {
            rating,
            deviation,
            volatility: if end {
                volatility
            } else {
                p.rating.volatility
            },
            variance: if end {
                ZERO_BITS
            } else {
                variance
            },
            delta: if end {
                ZERO_BITS
            } else {
                delta
            },
            inactive_periods: 0,
        },
        KernelOutcome::Inactive { rating, deviation } => PlayerReport {
            rating,
            deviation,
            volatility: p.rating.volatility,
            variance: ZERO_BITS,
            delta: ZERO_BITS,
            inactive_periods: (p.inactive_periods + 1) as u32,
        },
    }
}

/// The stored player after a commit: exactly the reported state, with the
/// pending results cleared.
pub open spec fn committed_player(p: Player, rep: PlayerReport) -> bool {
    &&& p.rating == (RatingState {
        rating: rep.rating,
        deviation: rep.deviation,
        volatility: rep.volatility,
    })
    &&& p.variance == rep.variance
    &&& p.delta == rep.delta
    &&& p.inactive_periods == rep.inactive_periods
    &&& p.races@.len() == 0
}

impl MultiPeriod {
    /// One task per known player, in store order: everything the numeric
    /// host layer needs to run the batch update or the decay step.
    pub fn rank_tasks(&self) -> (r: Vec<RankTask>)
        ensures
            r@.len() == self.players@.len(),
            forall|i: int|
                0 <= i < r@.len() ==> task_matches(
                    #[trigger] r@[i],
                    self.players@[i].0,
                    self.players@[i].1,
                    self.constants.multi_cutoff,
                ),
    {
        let mut out: Vec<RankTask> = Vec::new();
        let mut i: usize = 0;
        while i < self.players.len()
            invariant
                0 <= i <= self.players@.len(),
                out@.len() == i,
                forall|k: int|
                    0 <= k < i ==> task_matches(
                        #[trigger] out@[k],
                        self.players@[k].0,
                        self.players@[k].1,
                        self.constants.multi_cutoff,
                    ),
            decreases self.players@.len() - i,
        {
            let mut data: Vec<RaceDatum> = Vec::new();
            let mut k: usize = 0;
            while k < self.players[i].1.races.len()
                invariant
                    0 <= i < self.players@.len(),
                    0 <= k <= self.players@[i as int].1.races@.len(),
                    data@.len() == k,
                    forall|m: int|
                        0 <= m < k ==> datum_matches(
                            #[trigger] data@[m],
                            self.players@[i as int].1.races@[m],
                            self.constants.multi_cutoff,
                        ),
                decreases self.players@[i as int].1.races@.len() - k,
            {
                let rr = self.players[i].1.races[k];
                let d = RaceDatum {
                    outcome: rr.outcome,
                    self_norm: rr.self_norm,
                    opponent_rating: rr.opponent_rating,
                    opponent_norm: rr.opponent_norm,
                    race_size: rr.race_size,
                    apply_correction: rr.race_size >= self.constants.multi_cutoff,
                };
                data.push(d);
                k += 1;
            }
            let active = self.players[i].1.races.len() > 0;
            let t = RankTask {
                name: self.players[i].0.clone(),
                rating: self.players[i].1.rating,
                variance: self.players[i].1.variance,
                delta: self.players[i].1.delta,
                inactive_periods: self.players[i].1.inactive_periods,
                active,
                decay_applies: !active && self.players[i].1.inactive_periods > 0,
                races: data,
            };
            out.push(t);
            i += 1;
        }
        out
    }

    /// Commits the numeric host layer's answers, one per known player in
    /// store order, and returns the wire record for every player. The
    /// routing is the engine's: which volatility is reported, when variance
    /// and delta reset or persist as carry-over, and how the inactive-period
    /// counter moves; every pending-result list is cleared.
    pub fn rank_commit(&mut self, end: bool, outcomes: &Vec<KernelOutcome>) -> (r: Vec<
        (String, PlayerReport),
    >)
        requires
            old(self).wf(),
            outcomes@.len() == old(self).players@.len(),
            forall|i: int|
                0 <= i < outcomes@.len() ==> outcome_matches_player(
                    old(self).players@[i].1,
                    #[trigger] outcomes@[i],
                ),
            forall|i: int|
                0 <= i < outcomes@.len() && (#[trigger] old(self).players@[i]).1.races@.len() == 0
                    ==> old(self).players@[i].1.inactive_periods < u32::MAX,
        ensures
            final(self).constants == old(self).constants,
            final(self).wf(),
            final(self).players@.len() == old(self).players@.len(),
            r@.len() == old(self).players@.len(),
            forall|i: int|
                0 <= i < r@.len() ==> (#[trigger] r@[i]).0 == old(self).players@[i].0 && r@[i].1
                    == report_for(old(self).players@[i].1, outcomes@[i], end),
            forall|i: int|
                0 <= i < old(self).players@.len() ==> (#[trigger] final(self).players@[i]).0 == old(
                    self,
                ).players@[i].0 && committed_player(
                    final(self).players@[i].1,
                    report_for(old(self).players@[i].1, outcomes@[i], end),
                ),
    {
        let ghost st0 = self.players@;
        let mut out: Vec<(String, PlayerReport)> = Vec::new();
        let mut i: usize = 0;
        while i < self.players.len()
            invariant
                st0 == old(self).players@,
                self.constants == old(self).constants,
                outcomes@.len() == st0.len(),
                forall|k: int|
                    0 <= k < outcomes@.len() ==> outcome_matches_player(
                        st0[k].1,
                        #[trigger] outcomes@[k],
                    ),
                forall|k: int|
                    0 <= k < outcomes@.len() && (#[trigger] st0[k]).1.races@.len() == 0 ==> st0[
                        k
                    ].1.inactive_periods < u32::MAX,
                0 <= i <= st0.len(),
                self.players@.len() == st0.len(),
                out@.len() == i,
                forall|k: int| 0 <= k < st0.len() ==> (#[trigger] self.players@[k]).0 == st0[k].0,
                forall|k: int| i <= k < st0.len() ==> #[trigger] self.players@[k] == st0[k],
                forall|k: int|
                    0 <= k < i ==> committed_player(
                        (#[trigger] self.players@[k]).1,
                        report_for(st0[k].1, outcomes@[k], end),
                    ),
                forall|k: int|
                    0 <= k < i ==> (#[trigger] out@[k]).0 == st0[k].0 && out@[k].1 == report_for(
                        st0[k].1,
                        outcomes@[k],
                        end,
                    ),
            decreases st0.len() - i,
        {
            let name = self.players[i].0.clone();
            let old_vol = self.players[i].1.rating.volatility;
            let old_inact = self.players[i].1.inactive_periods;
            let rep = match outcomes[i] {
                KernelOutcome::Active { rating, deviation, volatility, variance, delta } => {
                    PlayerReport {
                        rating: rating,
                        deviation: deviation,
                        volatility: if end {
                            volatility
                        } else {
                            old_vol
                        },
                        variance: if end {
                            ZERO_BITS
                        } else {
                            variance
                        },
                        delta: if end {
                            ZERO_BITS
                        } else {
                            delta
                        },
                        inactive_periods: 0,
                    }
                },
                KernelOutcome::Inactive { rating, deviation } => {
                    PlayerReport {
                        rating: rating,
                        deviation: deviation,
                        volatility: old_vol,
                        variance: ZERO_BITS,
                        delta: ZERO_BITS,
                        inactive_periods: old_inact + 1,
                    }
                },
            };
            proof {
                assert(rep == report_for(st0[i as int].1, outcomes@[i as int], end));
            }
            self.players[i].1 = Player {
                rating: RatingState {
                    rating: rep.rating,
                    deviation: rep.deviation,
                    volatility: rep.volatility,
                },
                variance: rep.variance,
                delta: rep.delta,
                inactive_periods: rep.inactive_periods,
                races: Vec::new(),
            };
            out.push((name, rep));
            i += 1;
        }
        out
    }
}

} // verus!
