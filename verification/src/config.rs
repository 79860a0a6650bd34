//! The tunable constants of a rating context, and the validation of the
//! key/value mappings through which the host supplies constants and player
//! seeds: a mapping is accepted exactly when it carries each required key
//! once and nothing else.

use vstd::prelude::*;

use crate::GlickoError;
use crate::RawNum;

verus! {

/// The tunable constants of one rating context. Real-valued fields hold the
/// opaque 64-bit encoding of the value; only the multi-entrant cutoff is a
/// genuine count, compared against field sizes when pairings are expanded.
#[derive(Clone, Copy, Debug, PartialEq, Eq, Structural)]
pub struct GlickoConstants {
    pub glicko_tau: u64,
    pub multi_slope: u64,
    pub multi_cutoff: u32,
    pub norm_factor: u64,
    pub initial_rating: u64,
    pub initial_deviation: u64,
    pub initial_volatility: u64,
}

/// Encoding of 0.2, the default volatility-change constraint.
pub const DEFAULT_TAU: u64 = 0x3FC999999999999A;

/// Encoding of 0.008, the default multi-entrant slope.
pub const DEFAULT_MULTI_SLOPE: u64 = 0x3F80624DD2F1A9FC;

/// The default minimum finisher count before the field-size correction
/// activates.
pub const DEFAULT_MULTI_CUTOFF: u32 = 8;

/// Encoding of 1.3, the default IQR multiplier for score normalization.
pub const DEFAULT_NORM_FACTOR: u64 = 0x3FF4CCCCCCCCCCCD;

/// Encoding of 1500.0, the default initial rating.
pub const DEFAULT_INITIAL_RATING: u64 = 0x4097700000000000;

/// Encoding of 300.0, the default initial deviation.
pub const DEFAULT_INITIAL_DEVIATION: u64 = 0x4072C00000000000;

/// Encoding of 0.22, the default initial volatility.
pub const DEFAULT_INITIAL_VOLATILITY: u64 = 0x3FCC28F5C28F5C29;

pub open spec fn spec_default_constants() -> GlickoConstants {
    GlickoConstants {
        glicko_tau: DEFAULT_TAU,
        multi_slope: DEFAULT_MULTI_SLOPE,
        multi_cutoff: DEFAULT_MULTI_CUTOFF,
        norm_factor: DEFAULT_NORM_FACTOR,
        initial_rating: DEFAULT_INITIAL_RATING,
        initial_deviation: DEFAULT_INITIAL_DEVIATION,
        initial_volatility: DEFAULT_INITIAL_VOLATILITY,
    }
}

impl Default for GlickoConstants {
    /// The constants a context starts with before the host supplies its own.
    fn default() -> (c: GlickoConstants)
        ensures
            c == spec_default_constants(),
    {
        GlickoConstants {
            glicko_tau: DEFAULT_TAU,
            multi_slope: DEFAULT_MULTI_SLOPE,
            multi_cutoff: DEFAULT_MULTI_CUTOFF,
            norm_factor: DEFAULT_NORM_FACTOR,
            initial_rating: DEFAULT_INITIAL_RATING,
            initial_deviation: DEFAULT_INITIAL_DEVIATION,
            initial_volatility: DEFAULT_INITIAL_VOLATILITY,
        }
    }
}

/// The names of the seven keys a constants mapping must supply, and no
/// others.
pub open spec fn config_key_names() -> Seq<Seq<char>> {
    seq![
        "tau"@,
        "multi_slope"@,
        "multi_cutoff"@,
        "norm_factor"@,
        "initial_rating"@,
        "initial_deviation"@,
        "initial_volatility"@,
    ]
}

/// The names of the six keys a seeded player record must supply, and no
/// others.
pub open spec fn player_key_names() -> Seq<Seq<char>> {
    seq![
        "rating"@,
        "deviation"@,
        "volatility"@,
        "variance"@,
        "delta"@,
        "inactive_periods"@,
    ]
}

/// The key column of a key/value list.
pub open spec fn key_views<V>(entries: Seq<(String, V)>) -> Seq<Seq<char>> {
    entries.map_values(|e: (String, V)| e.0@)
}

/// A key list forms exactly the expected key set: every expected key is
/// present, no unexpected key is present, and no key repeats.
pub open spec fn exact_key_set(keys: Seq<Seq<char>>, expected: Seq<Seq<char>>) -> bool {
    &&& (forall|i: int| 0 <= i < expected.len() ==> keys.contains(#[trigger] expected[i]))
    &&& (forall|i: int| 0 <= i < keys.len() ==> expected.contains(#[trigger] keys[i]))
    &&& (forall|i: int, j: int| 0 <= i < j < keys.len() ==> keys[i] != keys[j])
}

/// The value at the first occurrence of `key`, if any.
pub open spec fn lookup_value(entries: Seq<(String, RawNum)>, key: Seq<char>) -> Option<RawNum>
    decreases entries.len(),
{
    if entries.len() == 0 {
        None::<RawNum>
    } else if entries[0].0@ == key {
        Some(entries[0].1)
    } else {
        lookup_value(entries.drop_first(), key)
    }
}

/// A key that occurs in the list can be looked up.
pub proof fn lemma_lookup_present(entries: Seq<(String, RawNum)>, key: Seq<char>)
    requires
        key_views(entries).contains(key),
    ensures
        lookup_value(entries, key) is Some,
    decreases entries.len(),
{
    let i = choose|i: int| 0 <= i < key_views(entries).len() && key_views(entries)[i] == key;
    if entries[0].0@ != key {
        assert(key_views(entries.drop_first()) =~= key_views(entries).drop_first());
        assert(key_views(entries.drop_first())[i - 1] == key);
        lemma_lookup_present(entries.drop_first(), key);
    }
}

/// Whether some entry carries the given key.
pub fn contains_key<V>(entries: &Vec<(String, V)>, key: &String) -> (r: bool)
    ensures
        r == key_views(entries@).contains(key@),
{
    let mut i: usize = 0;
    while i < entries.len()
        invariant
            0 <= i <= entries@.len(),
            forall|k: int| 0 <= k < i ==> key_views(entries@)[k] != key@,
        decreases entries@.len() - i,
    {
        if entries[i].0 == *key {
            assert(key_views(entries@)[i as int] == key@);
            return true;
        }
        i += 1;
    }
    false
}

/// Whether the given key is among the expected names.
fn among(expected: &Vec<String>, key: &String) -> (r: bool)
    ensures
        r == expected@.map_values(|s: String| s@).contains(key@),
{
    let ghost names = expected@.map_values(|s: String| s@);
    let mut i: usize = 0;
    while i < expected.len()
        invariant
            0 <= i <= expected@.len(),
            names == expected@.map_values(|s: String| s@),
            forall|k: int| 0 <= k < i ==> names[k] != key@,
        decreases expected@.len() - i,
    {
        if expected[i] == *key {
            assert(names[i as int] == key@);
            return true;
        }
        i += 1;
    }
    false
}

/// Whether the entries' keys form exactly the expected key set.
pub fn check_exact_keys<V>(entries: &Vec<(String, V)>, expected: &Vec<String>) -> (r: bool)
    ensures
        r == exact_key_set(key_views(entries@), expected@.map_values(|s: String| s@)),
{
    let ghost keys = key_views(entries@);
    let ghost names = expected@.map_values(|s: String| s@);

    let mut i: usize = 0;
    while i < expected.len()
        invariant
            0 <= i <= expected@.len(),
            keys == key_views(entries@),
            names == expected@.map_values(|s: String| s@),
            forall|k: int| 0 <= k < i ==> keys.contains(#[trigger] names[k]),
        decreases expected@.len() - i,
    {
        if !contains_key(entries, &expected[i]) {
            assert(!keys.contains(names[i as int]));
            return false;
        }
        i += 1;
    }

    let mut i: usize = 0;
    while i < entries.len()
        invariant
            0 <= i <= entries@.len(),
            keys == key_views(entries@),
            names == expected@.map_values(|s: String| s@),
            forall|k: int| 0 <= k < i ==> names.contains(#[trigger] keys[k]),
        decreases entries@.len() - i,
    {
        if !among(expected, &entries[i].0) {
            assert(!names.contains(keys[i as int]));
            return false;
        }
        assert(keys[i as int] == entries@[i as int].0@);
        i += 1;
    }

    let mut i: usize = 0;
    while i < entries.len()
        invariant
            0 <= i <= entries@.len(),
            keys == key_views(entries@),
            forall|k: int, l: int| 0 <= k < l < entries@.len() && k < i ==> keys[k] != keys[l],
        decreases entries@.len() - i,
    {
        let mut j: usize = i + 1;
        while j < entries.len()
            invariant
                0 <= i < j <= entries@.len(),
                keys == key_views(entries@),
                forall|l: int| i < l < j ==> keys[i as int] != keys[l],
            decreases entries@.len() - j,
        {
            if entries[i].0 == entries[j].0 {
                assert(keys[i as int] == keys[j as int]);
                return false;
            }
            j += 1;
        }
        i += 1;
    }
    true
}

/// The seven expected constants keys, as strings.
pub fn config_key_strings() -> (r: Vec<String>)
    ensures
        r@.map_values(|s: String| s@) =~= config_key_names(),
{
    let mut v: Vec<String> = Vec::new();
    v.push("tau".to_owned());
    v.push("multi_slope".to_owned());
    v.push("multi_cutoff".to_owned());
    v.push("norm_factor".to_owned());
    v.push("initial_rating".to_owned());
    v.push("initial_deviation".to_owned());
    v.push("initial_volatility".to_owned());
    v
}

/// The six expected player-record keys, as strings.
pub fn player_key_strings() -> (r: Vec<String>)
    ensures
        r@.map_values(|s: String| s@) =~= player_key_names(),
{
    let mut v: Vec<String> = Vec::new();
    v.push("rating".to_owned());
    v.push("deviation".to_owned());
    v.push("volatility".to_owned());
    v.push("variance".to_owned());
    v.push("delta".to_owned());
    v.push("inactive_periods".to_owned());
    v
}

/// Accepts a constants mapping exactly when it supplies each of the seven
/// constants keys once and nothing else.
pub fn validate_constants(entries: &Vec<(String, RawNum)>) -> (r: Result<(), GlickoError>)
    ensures
        r is Ok <==> exact_key_set(key_views(entries@), config_key_names()),
        r is Err ==> r == Err::<(), GlickoError>(GlickoError::InvalidConfig),
{
    let expected = config_key_strings();
    if check_exact_keys(entries, &expected) {
        Ok(())
    } else {
        Err(GlickoError::InvalidConfig)
    }
}

/// Accepts a seed mapping exactly when every player record supplies each of
/// the six player keys once and nothing else.
pub fn validate_players(records: &Vec<(String, Vec<(String, RawNum)>)>) -> (r: Result<
    (),
    GlickoError,
>)
    ensures
        r is Ok <==> (forall|i: int|
            0 <= i < records@.len() ==> exact_key_set(
                key_views(#[trigger] records@[i].1@),
                player_key_names(),
            )),
        r is Err ==> r == Err::<(), GlickoError>(GlickoError::InvalidPlayerData),
{
    let expected = player_key_strings();
    let mut i: usize = 0;
    while i < records.len()
        invariant
            0 <= i <= records@.len(),
            expected@.map_values(|s: String| s@) =~= player_key_names(),
            forall|k: int|
                0 <= k < i ==> exact_key_set(key_views(#[trigger] records@[k].1@), player_key_names()),
        decreases records@.len() - i,
    {
        if !check_exact_keys(&records[i].1, &expected) {
            return Err(GlickoError::InvalidPlayerData);
        }
        i += 1;
    }
    Ok(())
}

/// The value the mapping supplies for `key`, if any.
pub fn get_value(entries: &Vec<(String, RawNum)>, key: &String) -> (r: Option<RawNum>)
    ensures
        r == lookup_value(entries@, key@),
{
    let mut i: usize = 0;
    assert(entries@.skip(0) =~= entries@);
    while i < entries.len()
        invariant
            0 <= i <= entries@.len(),
            lookup_value(entries@.skip(i as int), key@) == lookup_value(entries@, key@),
            forall|k: int| 0 <= k < i ==> entries@[k].0@ != key@,
        decreases entries@.len() - i,
    {
        assert(entries@.skip(i as int)[0] == entries@[i as int]);
        if entries[i].0 == *key {
            return Some(entries[i].1);
        }
        assert(entries@.skip(i as int).drop_first() =~= entries@.skip(i as int + 1));
        i += 1;
    }
    assert(entries@.skip(i as int).len() == 0);
    None
}

} // verus!
