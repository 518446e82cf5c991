use vstd::prelude::*;
use rand::rngs::StdRng;
use rand::{Rng, SeedableRng};
use crate::error::SimError;
use crate::outcome::{outcome_set, pattern_matches, Trial};
use crate::pattern::{all_tokens_ok, first_refusal, parse_pattern, u32_of, whitespace_tokens};
use crate::tally::{match_count_of, Ratio, Tally};

verus! {

#[verifier::external_type_specification]
#[verifier::external_body]
pub struct ExStdRng(StdRng);

/// Relies on `SeedableRng::seed_from_u64` of rand's `StdRng`: a generator
/// whose stream is fixed by the seed.
#[verifier::external_body]
fn seeded_rng(seed: u64) -> (r: StdRng) {
    StdRng::seed_from_u64(seed)
}

/// Relies on rand's `Rng::random_range` over `1..=6`: a value of the inclusive
/// range. The range is not empty, so the call does not panic.
#[verifier::external_body]
fn roll_die(rng: &mut StdRng) -> (r: u32)
    ensures
        1 <= r <= 6,
{
    rng.random_range(1..=6)
}

/// Draws one roll of four dice.
pub fn draw_trial(rng: &mut StdRng) -> (r: Trial)
    ensures
        r.wf(),
{
    let d1 = roll_die(rng);
    let d2 = roll_die(rng);
    let d3 = roll_die(rng);
    let d4 = roll_die(rng);
    Trial { d1, d2, d3, d4 }
}

/// Every roll of `ts` is a valid roll of four dice.
pub open spec fn all_valid(ts: Seq<Trial>) -> bool {
    forall|i: int| 0 <= i < ts.len() ==> (#[trigger] ts[i]).wf()
}

/// `t` is the exact tally, against `ps`, of some run of `n` valid rolls.
pub open spec fn counts_some_run(t: Tally, n: nat, ps: Seq<Vec<u32>>) -> bool {
    exists|ts: Seq<Trial>| ts.len() == n && all_valid(ts) && #[trigger] t.counts(ts, ps)
}

/// Runs `num_sims` trials from a generator seeded with `seed` and counts them
/// against `patterns`. The result is the exact tally of some run of
/// `num_sims` valid rolls. A run of no trials is refused before any roll.
pub fn simulate(num_sims: u32, patterns: &Vec<Vec<u32>>, seed: u64) -> (r: Result<
    Tally,
    SimError,
>)
    ensures
        num_sims == 0 <==> r is Err,
        r is Err ==> r matches Err(SimError::InvalidTrialCount),
        r is Ok ==> r->Ok_0.wf(patterns@.len()) && r->Ok_0.trials == num_sims,
        r is Ok ==> counts_some_run(r->Ok_0, num_sims as nat, patterns@),
{
    if num_sims == 0 {
        return Err(SimError::InvalidTrialCount);
    }
    let mut rng = seeded_rng(seed);
    let mut tally = Tally::new(patterns.len());
    let ghost mut drawn: Seq<Trial> = Seq::empty();
    assert(tally.counts(drawn, patterns@));
    let mut i: u32 = 0;
    while i < num_sims
        invariant
            i <= num_sims,
            drawn.len() == i,
            all_valid(drawn),
            tally.wf(patterns@.len()),
            tally.counts(drawn, patterns@),
        decreases num_sims - i,
    {
        let t = draw_trial(&mut rng);
        tally.record(&t, patterns);
        proof {
            let next = drawn.push(t);
            assert(next.drop_last() =~= drawn);
            drawn = next;
        }
        i = i + 1;
    }
    assert(drawn.len() == num_sims && all_valid(drawn) && tally.counts(drawn, patterns@));
    assert(counts_some_run(tally, num_sims as nat, patterns@));
    Ok(tally)
}

/// The column values of a pattern whose tokens all name columns.
pub open spec fn pattern_values(toks: Seq<Seq<char>>) -> Seq<u32> {
    toks.map_values(|t: Seq<char>| u32_of(t)->Some_0)
}

/// Fraction of `num_sims` trials, from a generator seeded with `seed`, that
/// match the pattern written in `text`. The pattern is checked before any roll.
pub fn specific(text: &str, num_sims: u32, seed: u64) -> (r: Result<Ratio, SimError>)
    ensures
        !all_tokens_ok(whitespace_tokens(text@)) ==> r is Err && first_refusal(
            whitespace_tokens(text@),
            r->Err_0,
        ),
        all_tokens_ok(whitespace_tokens(text@)) ==> (num_sims == 0 <==> r is Err),
        all_tokens_ok(whitespace_tokens(text@)) && num_sims == 0 ==> r matches Err(
            SimError::InvalidTrialCount,
        ),
        r is Ok ==> r->Ok_0.den == num_sims && r->Ok_0.num <= r->Ok_0.den,
        r is Ok ==> exists|ts: Seq<Trial>|
            ts.len() == num_sims && all_valid(ts) && r->Ok_0.num == #[trigger] match_count_of(
                ts,
                pattern_values(whitespace_tokens(text@)),
            ),
{
    let pattern = match parse_pattern(text) {
        Ok(p) => p,
        Err(e) => {
            return Err(e);
        },
    };
    if num_sims == 0 {
        return Err(SimError::InvalidTrialCount);
    }
    let ghost p = pattern_values(whitespace_tokens(text@));
    assert(pattern@ == p);
    let mut rng = seeded_rng(seed);
    let mut count: u32 = 0;
    let ghost mut drawn: Seq<Trial> = Seq::empty();
    let mut i: u32 = 0;
    while i < num_sims
        invariant
            i <= num_sims,
            drawn.len() == i,
            all_valid(drawn),
            pattern@ == p,
            count == match_count_of(drawn, p),
            count <= i,
        decreases num_sims - i,
    {
        let t = draw_trial(&mut rng);
        let vals = outcome_set(&t);
        let hit = pattern_matches(pattern.as_slice(), &vals);
        proof {
            let next = drawn.push(t);
            assert(next.drop_last() =~= drawn);
            drawn = next;
        }
        if hit {
            count = count + 1;
        }
        i = i + 1;
    }
    Ok(Ratio { num: count as u64, den: num_sims as u64 })
}

} // verus!
