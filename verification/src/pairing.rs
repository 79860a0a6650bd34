//! Pairing expansion: an N-entrant race is decomposed into the ordered pairs
//! of distinct entrants, and each pair is scored win/draw/loss from adjusted
//! finish times. An absent entrant's substituted time exceeds every
//! finisher's time (the worst recorded time plus a positive penalty), so the
//! outcome needs only the finishers' order keys and the absence flags, and
//! is decided here whatever penalty magnitude the host layer uses.

use vstd::prelude::*;
use vstd::arithmetic::div_mod::lemma_fundamental_div_mod_converse;

use itertools::Itertools;

use crate::player::Outcome;

verus! {

/// The `k`-th ordered pair of distinct indices below `n`, in lexicographic
/// order: row `i` holds the pairs whose first index is `i`, second index
/// ascending.
pub open spec fn pair_at(n: int, k: int) -> (usize, usize) {
    let i = k / (n - 1);
    let q = k % (n - 1);
    let j = if q < i {
        q
    } else {
        q + 1
    };
    (i as usize, j as usize)
}

/// All ordered pairs of distinct indices below `n`, in lexicographic order.
pub open spec fn index_pairs(n: int) -> Seq<(usize, usize)> {
    Seq::new((n * (n - 1)) as nat, |k: int| pair_at(n, k))
}

/// Relies on itertools' `Itertools::permutations`: over the fresh iterator
/// `0..n` with size 2 it yields every ordered pair of distinct indices below
/// `n`, in lexicographic order of positions (none for `n < 2`).
#[verifier::external_body]
pub(crate) fn ordered_index_pairs(n: usize) -> (r: Vec<(usize, usize)>)
    requires
        n * (n - 1) <= usize::MAX,
    ensures
        r@ == index_pairs(n as int),
{
    (0..n).permutations(2).map(|p: Vec<usize>| (p[0], p[1])).collect()
}

/// The pair at row `i`, column `q` of the lexicographic enumeration.
pub proof fn lemma_index_pairs_at(n: int, i: int, q: int)
    requires
        2 <= n,
        0 <= i < n,
        0 <= q < n - 1,
    ensures
        0 <= i * (n - 1) + q < n * (n - 1),
        index_pairs(n)[i * (n - 1) + q] == (
            (i as usize),
            (if q < i { q as usize } else { (q + 1) as usize }),
        ),
{
    let k = i * (n - 1) + q;
    assert(0 <= k && k < n * (n - 1)) by (nonlinear_arith)
        requires
            0 <= i < n,
            0 <= q < n - 1,
            k == i * (n - 1) + q,
    ;
    lemma_fundamental_div_mod_converse(k, n - 1, i, q);
}

/// The win/draw/loss outcome of the ordered comparison of two entrants'
/// times: a lower key wins, equal keys draw, a finisher beats an absent
/// entrant, and two absent entrants draw (their substituted times are
/// identical).
pub open spec fn outcome_of(a: Option<u64>, b: Option<u64>) -> Outcome {
    match (a, b) {
        (Some(x), Some(y)) => if x < y {
            Outcome::Win
        } else if x > y {
            Outcome::Loss
        } else {
            Outcome::Draw
        },
        (Some(_), None) => Outcome::Win,
        (None, Some(_)) => Outcome::Loss,
        (None, None) => Outcome::Draw,
    }
}

/// Scores one ordered comparison.
pub fn outcome_between(a: Option<u64>, b: Option<u64>) -> (r: Outcome)
    ensures
        r == outcome_of(a, b),
{
    match (a, b) {
        (Some(x), Some(y)) => {
            if x < y {
                Outcome::Win
            } else if x > y {
                Outcome::Loss
            } else {
                Outcome::Draw
            }
        },
        (Some(_), None) => Outcome::Win,
        (None, Some(_)) => Outcome::Loss,
        (None, None) => Outcome::Draw,
    }
}

/// Law: in a race where every entrant finished with the identical time,
/// every ordered pairwise comparison is a draw.
pub proof fn lemma_identical_times_all_draw(race: Seq<(String, Option<u64>)>, i: int, j: int)
    requires
        forall|k: int| 0 <= k < race.len() ==> (#[trigger] race[k].1) is Some,
        forall|k: int, l: int|
            0 <= k < race.len() && 0 <= l < race.len() ==> (#[trigger] race[k].1) == (
            #[trigger] race[l].1),
        0 <= i < race.len(),
        0 <= j < race.len(),
    ensures
        outcome_of(race[i].1, race[j].1) == Outcome::Draw,
{
}

/// Law: ordered outcomes are antisymmetric: one side's win is exactly the
/// other side's loss, and draws are mutual.
pub proof fn lemma_outcome_antisymmetric(a: Option<u64>, b: Option<u64>)
    ensures
        outcome_of(a, b) == Outcome::Win <==> outcome_of(b, a) == Outcome::Loss,
        outcome_of(a, b) == Outcome::Draw <==> outcome_of(b, a) == Outcome::Draw,
{
}

/// Law: a strictly lower key against a finisher, or finishing against an
/// absent entrant, is exactly what wins.
pub proof fn lemma_lower_time_wins(a: Option<u64>, b: Option<u64>)
    ensures
        outcome_of(a, b) == Outcome::Win <==> (a is Some && (b is None || a->0 < b->0)),
{
}

} // verus!
