//! End-to-end exercises of the rating engine, with the test body playing the
//! numeric host layer: times are mapped to order-preserving keys, real
//! numbers travel as 64-bit words, and the Glicko-2 kernels run here in
//! floating point.

use std::collections::HashMap;

use randorank::config::GlickoConstants;
use randorank::engine::MultiPeriod;
use randorank::player::{KernelOutcome, Outcome, RankTask};
use randorank::race::NormPlan;
use randorank::GlickoError;
use randorank::RawNum;

const SCALE: f64 = 173.7178;
const PI: f64 = std::f64::consts::PI;

/// Order-preserving embedding of (non-NaN) floats into u64.
fn time_key(t: f64) -> u64 {
    let b = t.to_bits();
    if b & (1u64 << 63) != 0 {
        !b
    } else {
        b ^ (1u64 << 63)
    }
}

fn key_time(k: u64) -> f64 {
    let b = if k & (1u64 << 63) != 0 {
        k ^ (1u64 << 63)
    } else {
        !k
    };
    f64::from_bits(b)
}

fn raw(v: f64) -> RawNum {
    RawNum { bits: v.to_bits(), whole: v as u32 }
}

fn entry(name: &str, v: f64) -> (String, RawNum) {
    (name.to_string(), raw(v))
}

fn constants_map(
    tau: f64,
    multi_slope: f64,
    multi_cutoff: f64,
    norm_factor: f64,
    initial_rating: f64,
    initial_deviation: f64,
    initial_volatility: f64,
) -> Vec<(String, RawNum)> {
    vec![
        entry("tau", tau),
        entry("multi_slope", multi_slope),
        entry("multi_cutoff", multi_cutoff),
        entry("norm_factor", norm_factor),
        entry("initial_rating", initial_rating),
        entry("initial_deviation", initial_deviation),
        entry("initial_volatility", initial_volatility),
    ]
}

fn seed_record(
    rating: f64,
    deviation: f64,
    volatility: f64,
    variance: f64,
    delta: f64,
    inactive_periods: f64,
) -> Vec<(String, RawNum)> {
    vec![
        entry("rating", rating),
        entry("deviation", deviation),
        entry("volatility", volatility),
        entry("variance", variance),
        entry("delta", delta),
        entry("inactive_periods", inactive_periods),
    ]
}

/// A race as the host sees it: name -> time, NaN meaning did-not-finish.
fn race_entries(race: &[(&str, f64)]) -> Vec<(String, Option<u64>)> {
    race.iter()
        .map(|(n, t)| (n.to_string(), if t.is_nan() { None } else { Some(time_key(*t)) }))
        .collect()
}

/// The host's normalization: interpolate the quartiles at the positions the
/// plan gives, then score every entrant.
fn normalize_scores(race: &[(&str, f64)], plan: &NormPlan, norm_factor: f64) -> Vec<u64> {
    let sorted: Vec<f64> = plan.sorted_keys.iter().map(|k| key_time(*k)).collect();
    let interp = |idx: usize, quarter: usize| -> f64 {
        if quarter == 0 {
            sorted[idx]
        } else {
            let lo = sorted[idx];
            let hi = sorted[idx + 1];
            lo + (hi - lo) * (quarter as f64 / 4.0)
        }
    };
    let q1 = interp(plan.q1_index, plan.q1_quarter);
    let q3 = interp(plan.q3_index, plan.q3_quarter);
    let iqr = q3 - q1;
    let norm_min = q1 + iqr * norm_factor;
    let norm_max = sorted[0];
    let worst = sorted[sorted.len() - 1];
    race.iter()
        .map(|(_, t)| {
            let adjusted = if t.is_nan() { worst + 1200.0 } else { *t };
            let y = (adjusted - norm_min) / (norm_max - norm_min);
            let score = if y > 0.0 { y } else { 0.0 };
            score.to_bits()
        })
        .collect()
}

/// The Glicko-2 volatility equation, solved by the damped secant search.
fn get_sigma(tau: f64, phi: f64, sigma: f64, delta: f64, v: f64) -> f64 {
    const EPSILON: f64 = 0.000_000_01;
    let alpha = (sigma * sigma).ln();
    let f = |x: f64| -> f64 {
        let ex = x.exp();
        let num = ex * (delta * delta - phi * phi - v - ex);
        let den = 2.0 * (phi * phi + v + ex) * (phi * phi + v + ex);
        num / den - (x - alpha) / (tau * tau)
    };
    let mut a = alpha;
    let mut b;
    if delta * delta > phi * phi + v {
        b = (delta * delta - phi * phi - v).ln();
    } else {
        let mut k: f64 = 1.0;
        while f(alpha - k * tau) < 0.0 {
            k += 1.0;
        }
        b = alpha - k * tau;
    }
    let mut fa = f(a);
    let mut fb = f(b);
    while (b - a).abs() > EPSILON {
        let c = a + (a - b) * fa / (fb - fa);
        let fc = f(c);
        if fc * fb < 0.0 {
            a = b;
            fa = fb;
        } else {
            fa /= 2.0;
        }
        b = c;
        fb = fc;
    }
    (a / 2.0).exp()
}

fn outcome_value(o: Outcome) -> f64 {
    match o {
        Outcome::Win => 1.0,
        Outcome::Draw => 0.5,
        Outcome::Loss => 0.0,
    }
}

/// The batch update for one active player.
fn active_kernel(task: &RankTask, constants: &GlickoConstants) -> KernelOutcome {
    let initial_rating = f64::from_bits(constants.initial_rating);
    let tau = f64::from_bits(constants.glicko_tau);
    let slope = f64::from_bits(constants.multi_slope);
    let conv_r = (f64::from_bits(task.rating.rating) - initial_rating) / SCALE;
    let conv_d = f64::from_bits(task.rating.deviation) / SCALE;
    let conv_v = f64::from_bits(task.rating.volatility);
    let variance = f64::from_bits(task.variance);
    let recip = variance.recip();
    let mut v_inv = if recip.is_finite() { recip } else { 0.0 };
    let mut delta = f64::from_bits(task.delta);
    for d in task.races.iter() {
        let ndiff = (f64::from_bits(d.self_norm) - f64::from_bits(d.opponent_norm)).abs();
        let opp_r = (f64::from_bits(d.opponent_rating.rating) - initial_rating) / SCALE;
        let opp_d = f64::from_bits(d.opponent_rating.deviation) / SCALE;
        let multi_factor =
            (1.0 - slope * (d.race_size as f64).powf(1.0 - ndiff)) * (1.0 / (1.0 - slope));
        let mut weight = 1.0 / (1.0 + 3.0 * opp_d * opp_d / (PI * PI)).sqrt();
        if d.apply_correction {
            weight *= multi_factor;
        }
        let expected = 1.0 / (1.0 + (-weight * (conv_r - opp_r)).exp());
        v_inv += weight * weight * expected * (1.0 - expected);
        delta += weight * (outcome_value(d.outcome) - expected);
    }
    if v_inv != 0.0 {
        let var = 1.0 / v_inv;
        let change = var * delta;
        let new_sigma = get_sigma(tau, conv_d, conv_v, change, var);
        let phi_star = (conv_d * conv_d + new_sigma * new_sigma).sqrt();
        let new_d = 1.0 / ((1.0 / (phi_star * phi_star)) + (1.0 / var)).sqrt();
        let new_r = conv_r + new_d * new_d * delta;
        KernelOutcome::Active {
            rating: (new_r * SCALE + initial_rating).to_bits(),
            deviation: (new_d * SCALE).to_bits(),
            volatility: new_sigma.to_bits(),
            variance: var.to_bits(),
            delta: delta.to_bits(),
        }
    } else {
        KernelOutcome::Active {
            rating: (conv_r * SCALE + initial_rating).to_bits(),
            deviation: (conv_d * SCALE).to_bits(),
            volatility: conv_v.to_bits(),
            variance: 0.0f64.to_bits(),
            delta: delta.to_bits(),
        }
    }
}

/// The inactivity-decay step for one player with no pending results.
fn inactive_kernel(task: &RankTask, constants: &GlickoConstants) -> KernelOutcome {
    let initial_rating = f64::from_bits(constants.initial_rating);
    let conv_r = (f64::from_bits(task.rating.rating) - initial_rating) / SCALE;
    let conv_d = f64::from_bits(task.rating.deviation) / SCALE;
    let conv_v = f64::from_bits(task.rating.volatility);
    let phi_star = (conv_d * conv_d + conv_v * conv_v).sqrt();
    let disp_d = phi_star * SCALE;
    let mut disp_r = conv_r * SCALE + initial_rating;
    if task.decay_applies {
        disp_r -= (disp_d.ln().powi(2) + (task.inactive_periods as f64).sqrt()) / 2.0;
    }
    KernelOutcome::Inactive { rating: disp_r.to_bits(), deviation: disp_d.to_bits() }
}

/// Runs a full race through the engine: validate/seed/plan, normalize,
/// expand pairings.
fn submit_race(engine: &mut MultiPeriod, race: &[(&str, f64)]) -> Result<(), GlickoError> {
    let entries = race_entries(race);
    let plan = engine.add_race(&entries)?;
    let norm_factor = f64::from_bits(engine.get_constants().norm_factor);
    let scores = normalize_scores(race, &plan, norm_factor);
    engine.make_pairings(&entries, &scores);
    Ok(())
}

/// Runs the finalize pass: kernels per task, then the commit.
fn rank(engine: &mut MultiPeriod, end: bool) -> HashMap<String, HashMap<String, f64>> {
    let constants = engine.get_constants();
    let tasks = engine.rank_tasks();
    let outcomes: Vec<KernelOutcome> = tasks
        .iter()
        .map(|t| {
            if t.active {
                active_kernel(t, &constants)
            } else {
                inactive_kernel(t, &constants)
            }
        })
        .collect();
    let reports = engine.rank_commit(end, &outcomes);
    reports
        .into_iter()
        .map(|(name, rep)| {
            let mut m = HashMap::new();
            m.insert("rating".to_string(), f64::from_bits(rep.rating));
            m.insert("deviation".to_string(), f64::from_bits(rep.deviation));
            m.insert("volatility".to_string(), f64::from_bits(rep.volatility));
            m.insert("variance".to_string(), f64::from_bits(rep.variance));
            m.insert("delta".to_string(), f64::from_bits(rep.delta));
            m.insert("inactive_periods".to_string(), rep.inactive_periods as f64);
            (name, m)
        })
        .collect()
}

#[test]
fn default_constants_match() {
    let engine = MultiPeriod::new();
    let c = engine.get_constants();
    assert_eq!(f64::from_bits(c.glicko_tau), 0.2);
    assert_eq!(f64::from_bits(c.multi_slope), 0.008);
    assert_eq!(c.multi_cutoff, 8);
    assert_eq!(f64::from_bits(c.norm_factor), 1.3);
    assert_eq!(f64::from_bits(c.initial_rating), 1500.0);
    assert_eq!(f64::from_bits(c.initial_deviation), 300.0);
    assert_eq!(f64::from_bits(c.initial_volatility), 0.22);
}

#[test]
fn set_constants_accepts_exact_keys() {
    let mut engine = MultiPeriod::new();
    let m = constants_map(0.5, 0.008, 8.0, 1.3, 1500.0, 350.0, 0.06);
    assert!(engine.set_constants(&m).is_ok());
    let c = engine.get_constants();
    assert_eq!(f64::from_bits(c.glicko_tau), 0.5);
    assert_eq!(f64::from_bits(c.initial_deviation), 350.0);
    assert_eq!(c.multi_cutoff, 8);
}

#[test]
fn set_constants_rejects_missing_key() {
    let mut engine = MultiPeriod::new();
    let mut m = constants_map(0.5, 0.008, 8.0, 1.3, 1500.0, 350.0, 0.06);
    m.pop();
    assert_eq!(engine.set_constants(&m), Err(GlickoError::InvalidConfig));
    // a rejected mapping leaves the constants unchanged
    assert_eq!(f64::from_bits(engine.get_constants().glicko_tau), 0.2);
}

#[test]
fn set_constants_rejects_unknown_key() {
    let mut engine = MultiPeriod::new();
    let mut m = constants_map(0.5, 0.008, 8.0, 1.3, 1500.0, 350.0, 0.06);
    m.push(entry("bonus", 1.0));
    assert_eq!(engine.set_constants(&m), Err(GlickoError::InvalidConfig));
}

#[test]
fn set_constants_rejects_duplicate_key() {
    let mut engine = MultiPeriod::new();
    let mut m = constants_map(0.5, 0.008, 8.0, 1.3, 1500.0, 350.0, 0.06);
    m.push(entry("tau", 0.7));
    assert_eq!(engine.set_constants(&m), Err(GlickoError::InvalidConfig));
}

#[test]
fn add_players_reseeds_known_player_in_place() {
    let mut engine = MultiPeriod::new();
    let first = vec![
        ("ann".to_string(), seed_record(1500.0, 350.0, 0.06, 0.0, 0.0, 0.0)),
        ("bob".to_string(), seed_record(1500.0, 350.0, 0.06, 0.0, 0.0, 0.0)),
    ];
    engine.add_players(&first).unwrap();
    let again = vec![("ann".to_string(), seed_record(1650.0, 180.0, 0.05, 0.0, 0.0, 1.0))];
    engine.add_players(&again).unwrap();
    // the store keeps its order and length; only ann's state changed
    assert_eq!(engine.get_players(), vec!["ann".to_string(), "bob".to_string()]);
    let tasks = engine.rank_tasks();
    assert_eq!(f64::from_bits(tasks[0].rating.rating), 1650.0);
    assert_eq!(tasks[0].inactive_periods, 1);
    assert_eq!(f64::from_bits(tasks[1].rating.rating), 1500.0);
}

#[test]
fn add_players_rejects_malformed_record() {
    let mut engine = MultiPeriod::new();
    let mut rec = seed_record(1500.0, 350.0, 0.06, 0.0, 0.0, 0.0);
    rec.pop();
    let records = vec![("ann".to_string(), rec)];
    assert_eq!(engine.add_players(&records), Err(GlickoError::InvalidPlayerData));
    assert!(engine.get_players().is_empty());
}

#[test]
fn add_players_rejects_extra_key() {
    let mut engine = MultiPeriod::new();
    let mut rec = seed_record(1500.0, 350.0, 0.06, 0.0, 0.0, 0.0);
    rec.push(entry("mood", 3.0));
    let records = vec![("ann".to_string(), rec)];
    assert_eq!(engine.add_players(&records), Err(GlickoError::InvalidPlayerData));
}

#[test]
fn add_players_seeds_and_lists() {
    let mut engine = MultiPeriod::new();
    let records = vec![
        ("ann".to_string(), seed_record(1600.0, 200.0, 0.05, 0.0, 0.0, 2.0)),
        ("bob".to_string(), seed_record(1400.0, 250.0, 0.07, 0.0, 0.0, 0.0)),
    ];
    assert!(engine.add_players(&records).is_ok());
    let names = engine.get_players();
    assert_eq!(names, vec!["ann".to_string(), "bob".to_string()]);
    let tasks = engine.rank_tasks();
    assert_eq!(f64::from_bits(tasks[0].rating.rating), 1600.0);
    assert_eq!(tasks[0].inactive_periods, 2);
    assert!(!tasks[0].active);
    assert!(tasks[0].decay_applies);
    assert!(!tasks[1].decay_applies);
}

#[test]
fn one_entrant_race_is_invalid() {
    let mut engine = MultiPeriod::new();
    let result = submit_race(&mut engine, &[("ann", 60.0)]);
    assert_eq!(result, Err(GlickoError::InvalidRace));
    assert!(engine.get_players().is_empty());
}

#[test]
fn all_absent_race_is_invalid() {
    let mut engine = MultiPeriod::new();
    let result = submit_race(&mut engine, &[("ann", f64::NAN), ("bob", f64::NAN)]);
    assert_eq!(result, Err(GlickoError::InvalidRace));
    assert!(engine.get_players().is_empty());
}

#[test]
fn two_entrant_outcomes() {
    let mut engine = MultiPeriod::new();
    submit_race(&mut engine, &[("ann", 60.0), ("bob", 65.0)]).unwrap();
    let tasks = engine.rank_tasks();
    let ann = tasks.iter().find(|t| t.name == "ann").unwrap();
    let bob = tasks.iter().find(|t| t.name == "bob").unwrap();
    assert_eq!(ann.races.len(), 1);
    assert_eq!(bob.races.len(), 1);
    assert_eq!(ann.races[0].outcome, Outcome::Win);
    assert_eq!(bob.races[0].outcome, Outcome::Loss);
    assert_eq!(ann.races[0].race_size, 2);
    // opponent snapshots carry the other entrant's stored rating
    assert_eq!(f64::from_bits(ann.races[0].opponent_rating.rating), 1500.0);
    assert_eq!(f64::from_bits(bob.races[0].opponent_rating.rating), 1500.0);
}

#[test]
fn identical_times_are_all_draws() {
    let mut engine = MultiPeriod::new();
    submit_race(&mut engine, &[("ann", 60.0), ("bob", 60.0), ("cid", 60.0)]).unwrap();
    let tasks = engine.rank_tasks();
    assert_eq!(tasks.len(), 3);
    for t in tasks.iter() {
        assert_eq!(t.races.len(), 2);
        for d in t.races.iter() {
            assert_eq!(d.outcome, Outcome::Draw);
        }
    }
}

#[test]
fn absent_entrants_lose_and_draw_each_other() {
    let mut engine = MultiPeriod::new();
    submit_race(
        &mut engine,
        &[("ann", 60.0), ("bob", 65.0), ("dnf1", f64::NAN), ("dnf2", f64::NAN)],
    )
    .unwrap();
    let tasks = engine.rank_tasks();
    let ann = tasks.iter().find(|t| t.name == "ann").unwrap();
    let dnf1 = tasks.iter().find(|t| t.name == "dnf1").unwrap();
    // the finisher count excludes substituted non-finishers
    assert_eq!(ann.races[0].race_size, 2);
    for d in ann.races.iter() {
        assert_eq!(d.outcome, Outcome::Win);
    }
    let against_bob = &dnf1.races[1];
    let against_dnf2 = &dnf1.races[2];
    assert_eq!(dnf1.races[0].outcome, Outcome::Loss);
    assert_eq!(against_bob.outcome, Outcome::Loss);
    assert_eq!(against_dnf2.outcome, Outcome::Draw);
}

#[test]
fn pairings_are_ordered_by_entrant() {
    let mut engine = MultiPeriod::new();
    submit_race(&mut engine, &[("ann", 60.0), ("bob", 65.0), ("cid", 70.0)]).unwrap();
    let tasks = engine.rank_tasks();
    let bob = tasks.iter().find(|t| t.name == "bob").unwrap();
    // bob's pending results come in entrant order: first against ann (a
    // loss), then against cid (a win)
    assert_eq!(bob.races.len(), 2);
    assert_eq!(bob.races[0].outcome, Outcome::Loss);
    assert_eq!(bob.races[1].outcome, Outcome::Win);
    let ann = tasks.iter().find(|t| t.name == "ann").unwrap();
    assert_eq!(ann.races[0].outcome, Outcome::Win);
    assert_eq!(ann.races[1].outcome, Outcome::Win);
    let cid = tasks.iter().find(|t| t.name == "cid").unwrap();
    assert_eq!(cid.races[0].outcome, Outcome::Loss);
    assert_eq!(cid.races[1].outcome, Outcome::Loss);
}

#[test]
fn quartile_positions_follow_rank_formula() {
    let mut engine = MultiPeriod::new();
    let race = [
        ("a", 62.0),
        ("b", 60.0),
        ("c", 71.0),
        ("d", 65.0),
        ("e", 80.0),
    ];
    let entries = race_entries(&race);
    let plan = engine.add_race(&entries).unwrap();
    // n = 5: rank 25% = 1.0, rank 75% = 3.0
    assert_eq!(plan.finishers, 5);
    assert_eq!((plan.q1_index, plan.q1_quarter), (1, 0));
    assert_eq!((plan.q3_index, plan.q3_quarter), (3, 0));
    let sorted: Vec<f64> = plan.sorted_keys.iter().map(|k| key_time(*k)).collect();
    assert_eq!(sorted, vec![60.0, 62.0, 65.0, 71.0, 80.0]);
}

#[test]
fn single_finisher_plan_degenerates() {
    let mut engine = MultiPeriod::new();
    let entries = race_entries(&[("ann", 60.0), ("bob", f64::NAN)]);
    let plan = engine.add_race(&entries).unwrap();
    assert_eq!(plan.finishers, 1);
    assert_eq!((plan.q1_index, plan.q1_quarter), (0, 0));
    assert_eq!((plan.q3_index, plan.q3_quarter), (0, 0));
}

#[test]
fn normalization_scores_two_entrants() {
    let race = [("ann", 60.0), ("bob", 70.0)];
    let mut engine = MultiPeriod::new();
    let entries = race_entries(&race);
    let plan = engine.add_race(&entries).unwrap();
    let scores = normalize_scores(&race, &plan, 1.3);
    // q1 = 62.5, q3 = 67.5, iqr = 5, norm_min = 69, norm_max = 60:
    // ann scores (60-69)/(60-69) = 1, bob (70-69)/(60-69) < 0 clamps to 0
    assert_eq!(f64::from_bits(scores[0]), 1.0);
    assert_eq!(f64::from_bits(scores[1]), 0.0);
}

#[test]
fn inactive_player_grows_deviation_and_counter() {
    let mut engine = MultiPeriod::new();
    let records = vec![("ann".to_string(), seed_record(1500.0, 350.0, 0.06, 0.0, 0.0, 0.0))];
    engine.add_players(&records).unwrap();
    let out = rank(&mut engine, true);
    let ann = &out["ann"];
    assert!(ann["deviation"] > 350.0);
    assert_eq!(ann["inactive_periods"], 1.0);
    assert_eq!(ann["variance"], 0.0);
    assert_eq!(ann["delta"], 0.0);
    assert_eq!(ann["volatility"], 0.06);
    // a second inactive period decays the rating as well
    let out2 = rank(&mut engine, true);
    let ann2 = &out2["ann"];
    assert_eq!(ann2["inactive_periods"], 2.0);
    assert!(ann2["deviation"] > ann["deviation"]);
    assert!(ann2["rating"] < ann["rating"]);
}

#[test]
fn end_to_end_two_player_race() {
    let mut engine = MultiPeriod::new();
    let m = constants_map(0.2, 0.008, 8.0, 1.3, 1500.0, 350.0, 0.06);
    engine.set_constants(&m).unwrap();
    let records = vec![
        ("ann".to_string(), seed_record(1500.0, 350.0, 0.06, 0.0, 0.0, 0.0)),
        ("bob".to_string(), seed_record(1500.0, 350.0, 0.06, 0.0, 0.0, 0.0)),
    ];
    engine.add_players(&records).unwrap();
    submit_race(&mut engine, &[("ann", 60.0), ("bob", 70.0)]).unwrap();
    let out = rank(&mut engine, true);
    let ann = &out["ann"];
    let bob = &out["bob"];
    assert!(ann["rating"] > 1500.0);
    assert!(bob["rating"] < 1500.0);
    assert!(ann["deviation"] < 350.0);
    assert!(bob["deviation"] < 350.0);
    assert_eq!(ann["variance"], 0.0);
    assert_eq!(bob["variance"], 0.0);
    assert_eq!(ann["inactive_periods"], 0.0);
}

#[test]
fn mid_period_rank_keeps_volatility_and_carries() {
    let mut engine = MultiPeriod::new();
    let m = constants_map(0.2, 0.008, 8.0, 1.3, 1500.0, 350.0, 0.06);
    engine.set_constants(&m).unwrap();
    submit_race(&mut engine, &[("ann", 60.0), ("bob", 70.0)]).unwrap();
    let out = rank(&mut engine, false);
    let ann = &out["ann"];
    // mid-period: the pre-update volatility is reported and the running
    // variance and delta persist
    assert_eq!(ann["volatility"], 0.06);
    assert!(ann["variance"] != 0.0);
    assert!(ann["delta"] != 0.0);
}

#[test]
fn race_auto_seeds_unknown_entrants() {
    let mut engine = MultiPeriod::new();
    submit_race(&mut engine, &[("ann", 60.0), ("bob", 70.0)]).unwrap();
    let names = engine.get_players();
    assert_eq!(names.len(), 2);
    let tasks = engine.rank_tasks();
    for t in tasks.iter() {
        assert_eq!(f64::from_bits(t.rating.rating), 1500.0);
        assert_eq!(f64::from_bits(t.rating.deviation), 300.0);
        assert!(t.active);
    }
}

#[test]
fn setters_replace_single_constants() {
    let mut engine = MultiPeriod::new();
    engine.set_glicko_tau(0.5f64.to_bits());
    engine.set_multi_slope(0.01f64.to_bits());
    engine.set_multi_cutoff(4);
    engine.set_norm_factor(1.5f64.to_bits());
    engine.set_initial_rating(1200.0f64.to_bits());
    engine.set_initial_deviation(100.0f64.to_bits());
    engine.set_initial_volatility(0.05f64.to_bits());
    let c = engine.get_constants();
    assert_eq!(f64::from_bits(c.glicko_tau), 0.5);
    assert_eq!(f64::from_bits(c.multi_slope), 0.01);
    assert_eq!(c.multi_cutoff, 4);
    assert_eq!(f64::from_bits(c.norm_factor), 1.5);
    assert_eq!(f64::from_bits(c.initial_rating), 1200.0);
    assert_eq!(f64::from_bits(c.initial_deviation), 100.0);
    assert_eq!(f64::from_bits(c.initial_volatility), 0.05);
}

#[test]
fn field_size_correction_flag_follows_cutoff() {
    let mut engine = MultiPeriod::new();
    engine.set_multi_cutoff(3);
    submit_race(&mut engine, &[("a", 60.0), ("b", 61.0), ("c", 62.0)]).unwrap();
    let tasks = engine.rank_tasks();
    for t in tasks.iter() {
        for d in t.races.iter() {
            assert_eq!(d.race_size, 3);
            assert!(d.apply_correction);
        }
    }
    let mut engine2 = MultiPeriod::new();
    engine2.set_multi_cutoff(4);
    submit_race(&mut engine2, &[("a", 60.0), ("b", 61.0), ("c", 62.0)]).unwrap();
    for t in engine2.rank_tasks().iter() {
        for d in t.races.iter() {
            assert!(!d.apply_correction);
        }
    }
}

#[test]
fn volatility_solver_stays_put_without_information() {
    // with delta = 0 and enormous variance the volatility equation's root is
    // the prior volatility
    let sigma = 0.06;
    let solved = get_sigma(0.2, 1.2, sigma, 0.0, 1.0e12);
    assert!((solved - sigma).abs() < 1.0e-6);
}

#[test]
fn scale_conversion_round_trips() {
    let to_internal = |r: f64, d: f64, initial: f64| ((r - initial) / SCALE, d / SCALE);
    let to_display = |r: f64, d: f64, initial: f64| (r * SCALE + initial, d * SCALE);
    let (ri, di) = to_internal(1712.0, 133.7, 1500.0);
    let (rd, dd) = to_display(ri, di, 1500.0);
    assert!((rd - 1712.0).abs() < 1.0e-9);
    assert!((dd - 133.7).abs() < 1.0e-9);
}
