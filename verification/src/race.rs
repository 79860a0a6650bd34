//! Race-level preparation: validation, the collection and sorting of the
//! finishers' time keys, and the order-statistic positions at which the
//! numeric host layer interpolates the quartiles of the field.
//!
//! A finish time enters the engine as an order-preserving integer key (the
//! host maps times to keys monotonically), so sorting and every comparison
//! of times is decided here; only the interpolation arithmetic between the
//! order statistics is left to the host.

use vstd::prelude::*;
use vstd::arithmetic::div_mod::lemma_fundamental_div_mod;

use crate::GlickoError;

verus! {

/// The time keys of the entrants that finished, in race order.
pub open spec fn present_keys(race: Seq<(String, Option<u64>)>) -> Seq<u64>
    decreases race.len(),
{
    if race.len() == 0 {
        Seq::<u64>::empty()
    } else {
        present_keys(race.drop_last()) + (if race.last().1 is Some {
            seq![race.last().1->0]
        } else {
            Seq::<u64>::empty()
        })
    }
}

/// How many entrants finished (have a present time).
pub open spec fn finisher_count(race: Seq<(String, Option<u64>)>) -> nat {
    present_keys(race).len()
}

/// Ascending order.
pub open spec fn sorted_asc(s: Seq<u64>) -> bool {
    forall|i: int, j: int| 0 <= i < j < s.len() ==> s[i] <= s[j]
}

/// Accepts a race exactly when it has at least two entrants and at least one
/// finisher.
pub fn validate_race(race: &Vec<(String, Option<u64>)>) -> (r: Result<(), GlickoError>)
    ensures
        r is Ok <==> (race@.len() >= 2 && finisher_count(race@) >= 1),
        r is Err ==> r == Err::<(), GlickoError>(GlickoError::InvalidRace),
{
    if race.len() < 2 {
        return Err(GlickoError::InvalidRace);
    }
    let keys = collect_keys(race);
    if keys.len() < 1 {
        return Err(GlickoError::InvalidRace);
    }
    Ok(())
}

/// The finishers' time keys, in race order.
pub fn collect_keys(race: &Vec<(String, Option<u64>)>) -> (r: Vec<u64>)
    ensures
        r@ == present_keys(race@),
{
    let mut r: Vec<u64> = Vec::new();
    let mut i: usize = 0;
    assert(race@.take(0) =~= Seq::<(String, Option<u64>)>::empty());
    while i < race.len()
        invariant
            0 <= i <= race@.len(),
            r@ =~= present_keys(race@.take(i as int)),
        decreases race@.len() - i,
    {
        assert(race@.take(i as int + 1).drop_last() =~= race@.take(i as int));
        assert(race@.take(i as int + 1).last() == race@[i as int]);
        match race[i].1 {
            Some(k) => { r.push(k); },
            None => {},
        }
        i += 1;
    }
    assert(race@.take(race@.len() as int) =~= race@);
    r
}

/// The keys in ascending order: an insertion sort, proved to permute its
/// input.
pub fn sort_keys(v: &Vec<u64>) -> (r: Vec<u64>)
    ensures
        sorted_asc(r@),
        r@.to_multiset() == v@.to_multiset(),
        r@.len() == v@.len(),
{
    let mut r: Vec<u64> = Vec::new();
    let mut i: usize = 0;
    assert(v@.take(0) =~= Seq::<u64>::empty());
    assert(r@.to_multiset() =~= v@.take(0).to_multiset());
    while i < v.len()
        invariant
            0 <= i <= v@.len(),
            sorted_asc(r@),
            r@.len() == i,
            r@.to_multiset() == v@.take(i as int).to_multiset(),
        decreases v@.len() - i,
    {
        let x = v[i];
        let mut p: usize = 0;
        while p < r.len() && r[p] <= x
            invariant
                0 <= p <= r@.len(),
                forall|q: int| 0 <= q < p ==> r@[q] <= x,
            decreases r@.len() - p,
        {
            p += 1;
        }
        let ghost before = r@;
        r.insert(p, x);
        assert(r@ == before.insert(p as int, x));
        assert forall|a: int, b: int| 0 <= a < b < r@.len() implies r@[a] <= r@[b] by {
            assert(forall|q: int| p < q < r@.len() ==> r@[q] == before[q - 1]);
            assert(forall|q: int| p < q < r@.len() ==> x <= #[trigger] r@[q]);
        }
        proof {
            vstd::seq_lib::to_multiset_insert(before, p as int, x);
            vstd::seq_lib::to_multiset_build(v@.take(i as int), v@[i as int]);
            assert(v@.take(i as int + 1) =~= v@.take(i as int).push(v@[i as int]));
        }
        i += 1;
    }
    assert(v@.take(v@.len() as int) =~= v@);
    r
}

/// The normalization plan the engine hands the numeric host layer: the
/// sorted finisher keys and the order-statistic positions of the two
/// quartiles. A quartile's value is read as
/// `(sorted[index] * (4 - quarter) + sorted[index + 1] * quarter) / 4`,
/// where a quarter of zero means the order statistic itself and no second
/// read is needed (the case for a single finisher).
#[derive(Clone, Debug)]
pub struct NormPlan {
    pub sorted_keys: Vec<u64>,
    pub q1_index: usize,
    pub q1_quarter: usize,
    pub q3_index: usize,
    pub q3_quarter: usize,
    pub finishers: usize,
}

/// The plan describes the race: the sorted keys permute the finishers' keys,
/// and the quartile positions implement linear interpolation at ranks
/// `(n - 1) / 4` and `3 * (n - 1) / 4` over `n` sorted values.
pub open spec fn plan_matches(p: NormPlan, race: Seq<(String, Option<u64>)>) -> bool {
    let n = finisher_count(race) as int;
    &&& p.finishers == n
    &&& p.sorted_keys@.len() == n
    &&& sorted_asc(p.sorted_keys@)
    &&& p.sorted_keys@.to_multiset() == present_keys(race).to_multiset()
    &&& p.q1_index == (n - 1) / 4
    &&& p.q1_quarter == (n - 1) % 4
    &&& p.q3_index == (3 * (n - 1)) / 4
    &&& p.q3_quarter == (3 * (n - 1)) % 4
    &&& n >= 2 ==> p.q1_index + 1 < n && p.q3_index + 1 < n
    &&& n == 1 ==> p.q1_index == 0 && p.q1_quarter == 0 && p.q3_index == 0 && p.q3_quarter == 0
}

/// Builds the normalization plan for a race with at least one finisher.
pub fn build_plan(race: &Vec<(String, Option<u64>)>) -> (r: NormPlan)
    requires
        finisher_count(race@) >= 1,
        race@.len() <= u32::MAX,
    ensures
        plan_matches(r, race@),
{
    let keys = collect_keys(race);
    proof {
        lemma_present_keys_len(race@);
    }
    let sorted_keys = sort_keys(&keys);
    let n = sorted_keys.len();
    let m = n - 1;
    let q1_index = m / 4;
    let q1_quarter = m % 4;
    let t3: u64 = 3 * (m as u64);
    let q3_index_w: u64 = t3 / 4;
    let q3_quarter_w: u64 = t3 % 4;
    proof {
        lemma_fundamental_div_mod(m as int, 4);
        lemma_fundamental_div_mod(3 * (m as int), 4);
        assert(q3_index_w == (3 * (m as int)) / 4);
        assert(q3_index_w <= m);
    }
    let q3_index = q3_index_w as usize;
    let q3_quarter = q3_quarter_w as usize;
    NormPlan { sorted_keys, q1_index, q1_quarter, q3_index, q3_quarter, finishers: n }
}

/// There are at most as many finishers as entrants.
pub proof fn lemma_present_keys_len(race: Seq<(String, Option<u64>)>)
    ensures
        present_keys(race).len() <= race.len(),
    decreases race.len(),
{
    if race.len() > 0 {
        lemma_present_keys_len(race.drop_last());
    }
}

} // verus!
