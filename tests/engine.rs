use cantstop::error::{SimError, TokenFault};
use cantstop::outcome::{contains_any, is_double, member, outcome_set, pattern_matches, touches, Trial};
use cantstop::pattern::{builtin_patterns, parse_pattern, validate_token};
use cantstop::sim::{draw_trial, simulate, specific};
use cantstop::tally::{tally_of, top_distance, Tally};
use rand::rngs::StdRng;
use rand::SeedableRng;

fn trial(d1: u32, d2: u32, d3: u32, d4: u32) -> Trial {
    Trial { d1, d2, d3, d4 }
}

#[test]
fn outcome_all_ones() {
    assert_eq!(outcome_set(&trial(1, 1, 1, 1)), [2, 2, 2, 2, 2, 2]);
}

#[test]
fn outcome_all_sixes() {
    assert_eq!(outcome_set(&trial(6, 6, 6, 6)), [12, 12, 12, 12, 12, 12]);
}

#[test]
fn outcome_pairing_order() {
    assert_eq!(outcome_set(&trial(1, 2, 3, 4)), [3, 7, 4, 6, 5, 5]);
}

#[test]
fn outcome_is_deterministic() {
    let t = trial(2, 5, 3, 6);
    assert_eq!(outcome_set(&t), outcome_set(&t));
    assert_eq!(outcome_set(&t), [7, 9, 5, 11, 8, 8]);
}

#[test]
fn pattern_match_is_existence_test() {
    let vals = [5, 6, 5, 6, 5, 6];
    assert!(!pattern_matches(&[2, 3, 4], &vals));
    assert!(pattern_matches(&[5], &vals));
    assert!(pattern_matches(&[2, 3, 6], &vals));
    assert!(!pattern_matches(&[], &vals));
}

#[test]
fn touches_is_membership() {
    let vals = [5, 6, 5, 6, 5, 6];
    assert!(touches(&vals, 5));
    assert!(touches(&vals, 6));
    assert!(!touches(&vals, 7));
}

#[test]
fn contains_any_and_member() {
    assert!(contains_any(&[1, 2, 3], &[9, 3]));
    assert!(!contains_any(&[1, 2, 3], &[9, 4]));
    assert!(!contains_any(&[], &[1]));
    assert!(member(&[4, 8], 8));
    assert!(!member(&[4, 8], 5));
}

#[test]
fn double_requires_alignment() {
    let vals = [7, 3, 7, 9, 2, 2];
    assert!(!is_double(&vals, 7));
    assert!(touches(&vals, 7));
    assert!(is_double(&vals, 2));
    assert!(is_double(&[7, 7, 3, 9, 2, 2], 7));
    assert!(is_double(&[1, 3, 8, 8, 2, 4], 8));
    assert!(!is_double(&[1, 8, 8, 3, 2, 4], 8));
}

#[test]
fn top_distance_table() {
    let expected = [2, 4, 6, 8, 10, 12, 10, 8, 6, 4, 2];
    for j in 2..=12u32 {
        assert_eq!(top_distance(j), expected[(j - 2) as usize]);
    }
}

#[test]
fn builtin_table_shape() {
    let t = builtin_patterns();
    assert_eq!(t.len(), 29);
    assert_eq!(t[0], vec![6, 7, 8]);
    assert_eq!(t[16], vec![3, 4, 10]);
    assert_eq!(t[28], vec![2, 3, 4]);
    for p in &t {
        assert_eq!(p.len(), 3);
        assert!(p.iter().all(|v| (2..=10).contains(v)));
    }
}

#[test]
fn tally_of_one_trial() {
    let t = tally_of(&vec![trial(1, 1, 1, 1)], &vec![vec![2, 3], vec![4]]);
    assert_eq!(t.trials, 1);
    assert_eq!(t.single[0], 1);
    assert_eq!(t.double[0], 1);
    for k in 1..11 {
        assert_eq!(t.single[k], 0);
        assert_eq!(t.double[k], 0);
    }
    assert_eq!(t.matches, vec![1, 0]);
    let adv = t.expected_advances(2);
    assert_eq!((adv.num, adv.den), (2, 1));
    let turns = t.expected_turns_to_top(2).unwrap();
    assert_eq!((turns.num, turns.den), (2, 2));
}

#[test]
fn tally_of_counts_exactly() {
    let trials = vec![trial(1, 2, 3, 4), trial(3, 4, 3, 4), trial(6, 6, 6, 6)];
    let t = tally_of(&trials, &vec![vec![7], vec![12, 2]]);
    assert_eq!(t.trials, 3);
    // column 7: first two rolls reach it; the second doubles it (3+4, 3+4)
    assert_eq!(t.single[5], 2);
    assert_eq!(t.double[5], 1);
    // column 12: only the last roll, which doubles it
    assert_eq!(t.single[10], 1);
    assert_eq!(t.double[10], 1);
    assert_eq!(t.matches, vec![2, 1]);
    let s = t.single_pct(7);
    assert_eq!((s.num, s.den), (2, 3));
    let d = t.double_pct(7);
    assert_eq!((d.num, d.den), (1, 3));
    let m = t.match_pct(1);
    assert_eq!((m.num, m.den), (1, 3));
    let turns = t.expected_turns_to_top(7).unwrap();
    assert_eq!((turns.num, turns.den), (36, 3));
}

#[test]
fn expectation_undefined_without_advances() {
    let t = tally_of(&vec![trial(1, 1, 1, 1)], &vec![]);
    assert_eq!(t.expected_turns_to_top(12), Err(SimError::DivisionByZeroInExpectation { column: 12 }));
    let a = t.expected_advances(12);
    assert_eq!((a.num, a.den), (0, 1));
}

#[test]
fn empty_tally() {
    let t = Tally::new(3);
    assert_eq!(t.trials, 0);
    assert_eq!(t.single, vec![0; 11]);
    assert_eq!(t.double, vec![0; 11]);
    assert_eq!(t.matches, vec![0; 3]);
}

#[test]
fn counts_bounded_after_run() {
    let patterns = builtin_patterns();
    let t = simulate(2000, &patterns, 7).unwrap();
    assert_eq!(t.trials, 2000);
    for k in 0..11 {
        assert!(t.double[k] <= t.single[k]);
        assert!(t.single[k] <= 2000);
    }
    for m in &t.matches {
        assert!(*m <= 2000);
    }
}

#[test]
fn percentages_within_unit_interval() {
    let patterns = builtin_patterns();
    for n in [1u32, 3, 50] {
        let t = simulate(n, &patterns, 11).unwrap();
        for j in 2..=12 {
            let s = t.single_pct(j);
            let d = t.double_pct(j);
            assert!(s.num <= s.den && s.den == n as u64);
            assert!(d.num <= d.den && d.den == n as u64);
        }
        for k in 0..patterns.len() {
            let m = t.match_pct(k);
            assert!(m.num <= m.den);
        }
    }
}

#[test]
fn convergence_of_column_seven() {
    let mut hits = 0u32;
    for d1 in 1..=6 {
        for d2 in 1..=6 {
            for d3 in 1..=6 {
                for d4 in 1..=6 {
                    if touches(&outcome_set(&trial(d1, d2, d3, d4)), 7) {
                        hits += 1;
                    }
                }
            }
        }
    }
    let exact = hits as f64 / 1296.0;
    let t = simulate(1_000_000, &vec![], 2024).unwrap();
    let s = t.single_pct(7);
    let estimate = s.num as f64 / s.den as f64;
    assert!((estimate - exact).abs() <= 0.01, "estimate {} exact {}", estimate, exact);
}

#[test]
fn zero_trials_refused() {
    assert_eq!(simulate(0, &builtin_patterns(), 1).unwrap_err(), SimError::InvalidTrialCount);
    assert_eq!(specific("2 3", 0, 1), Err(SimError::InvalidTrialCount));
}

#[test]
fn out_of_range_token_refused() {
    let expected = SimError::InvalidPatternToken { token: "13".to_string(), fault: TokenFault::OutOfRange };
    assert_eq!(parse_pattern("2 13"), Err(expected.clone()));
    assert_eq!(specific("2 13", 1000, 1), Err(expected));
}

#[test]
fn non_integer_token_refused() {
    let expected = SimError::InvalidPatternToken { token: "x".to_string(), fault: TokenFault::NotAnInteger };
    assert_eq!(parse_pattern("2 x 99"), Err(expected.clone()));
    assert_eq!(specific("2 x 99", 0, 1), Err(expected));
    assert_eq!(
        parse_pattern("-3"),
        Err(SimError::InvalidPatternToken { token: "-3".to_string(), fault: TokenFault::NotAnInteger })
    );
}

#[test]
fn pattern_tokens_parsed() {
    assert_eq!(parse_pattern("  2 3\t12 "), Ok(vec![2, 3, 12]));
    assert_eq!(parse_pattern(""), Ok(vec![]));
    assert_eq!(
        parse_pattern("1"),
        Err(SimError::InvalidPatternToken { token: "1".to_string(), fault: TokenFault::OutOfRange })
    );
}

#[test]
fn validate_token_verdicts() {
    let tok = "9".to_string();
    assert_eq!(validate_token(&tok, Some(9)), Ok(9));
    assert_eq!(
        validate_token(&tok, Some(0)),
        Err(SimError::InvalidPatternToken { token: "9".to_string(), fault: TokenFault::OutOfRange })
    );
    assert_eq!(
        validate_token(&tok, None),
        Err(SimError::InvalidPatternToken { token: "9".to_string(), fault: TokenFault::NotAnInteger })
    );
}

#[test]
fn specific_ratio_bounds_and_seed() {
    let a = specific("6 7 8", 5000, 3).unwrap();
    let b = specific("6 7 8", 5000, 3).unwrap();
    assert_eq!(a, b);
    assert_eq!(a.den, 5000);
    assert!(a.num <= a.den);
    assert!(a.num > 0);
    let all = specific("2 3 4 5 6 7 8 9 10 11 12", 500, 3).unwrap();
    assert_eq!(all.num, 500);
}

#[test]
fn seeded_runs_repeat() {
    let p = builtin_patterns();
    let a = simulate(500, &p, 42).unwrap();
    let b = simulate(500, &p, 42).unwrap();
    assert_eq!(a.single, b.single);
    assert_eq!(a.double, b.double);
    assert_eq!(a.matches, b.matches);
}

#[test]
fn drawn_dice_in_range() {
    let mut rng = StdRng::seed_from_u64(5);
    let mut seen = [false; 7];
    for _ in 0..500 {
        let t = draw_trial(&mut rng);
        for d in [t.d1, t.d2, t.d3, t.d4] {
            assert!((1..=6).contains(&d));
            seen[d as usize] = true;
        }
    }
    assert!(seen[1..].iter().all(|s| *s));
}

#[test]
fn column_getters_by_value() {
    let t = tally_of(&vec![trial(3, 4, 3, 4)], &vec![]);
    assert_eq!(t.single_count(7), 1);
    assert_eq!(t.double_count(7), 1);
    assert_eq!(t.single_count(6), 1);
    assert_eq!(t.double_count(6), 0);
    assert_eq!(t.single_count(2), 0);
}

#[test]
fn merged_partitions_equal_whole_run() {
    let patterns = builtin_patterns();
    let first = vec![trial(1, 2, 3, 4), trial(6, 6, 1, 1)];
    let second = vec![trial(2, 2, 5, 5), trial(3, 4, 3, 4), trial(1, 1, 1, 6)];
    let mut merged = tally_of(&first, &patterns);
    merged.merge(&tally_of(&second, &patterns));
    let mut all = first.clone();
    all.extend(second.iter().cloned());
    let whole = tally_of(&all, &patterns);
    assert_eq!(merged.trials, 5);
    assert_eq!(merged.single, whole.single);
    assert_eq!(merged.double, whole.double);
    assert_eq!(merged.matches, whole.matches);
}
