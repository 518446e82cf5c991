use vstd::prelude::*;
use crate::error::SimError;
use crate::outcome::{
    aligned_double, contains_any, is_double, lemma_double_touches, outcome_set, shares_any,
    sums_of, touches, valid_column, Trial, MIN_COLUMN,
};

verus! {

/// Number of columns, 2 through 12.
pub const NUM_COLUMNS: usize = 11;

/// Trials of `ts` whose sums reach column `j`.
pub open spec fn single_count_of(ts: Seq<Trial>, j: u32) -> nat
    decreases ts.len(),
{
    if ts.len() == 0 {
        0
    } else {
        single_count_of(ts.drop_last(), j) + if sums_of(ts.last()).contains(j) {
            1nat
        } else {
            0nat
        }
    }
}

/// Trials of `ts` in which one split of the dice gives `j` twice.
pub open spec fn double_count_of(ts: Seq<Trial>, j: u32) -> nat
    decreases ts.len(),
{
    if ts.len() == 0 {
        0
    } else {
        double_count_of(ts.drop_last(), j) + if aligned_double(sums_of(ts.last()), j) {
            1nat
        } else {
            0nat
        }
    }
}

/// Trials of `ts` whose sums share a value with pattern `p`.
pub open spec fn match_count_of(ts: Seq<Trial>, p: Seq<u32>) -> nat
    decreases ts.len(),
{
    if ts.len() == 0 {
        0
    } else {
        match_count_of(ts.drop_last(), p) + if shares_any(sums_of(ts.last()), p) {
            1nat
        } else {
            0nat
        }
    }
}

/// An exact fraction `num / den`.
#[derive(Clone, Copy, Debug, PartialEq, Eq, Structural)]
pub struct Ratio {
    pub num: u64,
    pub den: u64,
}

/// Counts gathered over a run of trials. Column `j` is kept at index `j - 2`
/// of `single` and `double`; pattern `k` at index `k` of `matches`.
#[derive(Clone, Debug)]
pub struct Tally {
    pub trials: u32,
    pub single: Vec<u32>,
    pub double: Vec<u32>,
    pub matches: Vec<u32>,
}

/// Advances needed to finish column `j`.
pub open spec fn top_distance_spec(j: u32) -> u32 {
    if j <= 7 {
        ((j - 1) * 2) as u32
    } else {
        ((13 - j) * 2) as u32
    }
}

/// Advances needed to finish column `j` (2, 4, ..., 12, ..., 4, 2).
pub fn top_distance(j: u32) -> (r: u32)
    requires
        valid_column(j),
    ensures
        r == top_distance_spec(j),
{
    if j <= 7 {
        (j - 1) * 2
    } else {
        (13 - j) * 2
    }
}

impl Tally {
    /// Counts of column `j`.
    pub open spec fn single_of(&self, j: u32) -> u32 {
        self.single@[j - MIN_COLUMN]
    }

    pub open spec fn double_of(&self, j: u32) -> u32 {
        self.double@[j - MIN_COLUMN]
    }

    /// Sized for `n_patterns` patterns, with no count above the number of trials
    /// and no double count above the single count of its column.
    pub open spec fn wf(&self, n_patterns: nat) -> bool {
        &&& self.single@.len() == NUM_COLUMNS
        &&& self.double@.len() == NUM_COLUMNS
        &&& self.matches@.len() == n_patterns
        &&& forall|k: int| 0 <= k < NUM_COLUMNS ==> #[trigger] self.single@[k] <= self.trials
        &&& forall|k: int| 0 <= k < NUM_COLUMNS ==> #[trigger] self.double@[k] <= self.single@[k]
        &&& forall|k: int| 0 <= k < n_patterns ==> #[trigger] self.matches@[k] <= self.trials
    }

    /// The counts of the trials `ts` against the patterns `ps`.
    pub open spec fn counts(&self, ts: Seq<Trial>, ps: Seq<Vec<u32>>) -> bool {
        &&& self.trials == ts.len()
        &&& self.single@.len() == NUM_COLUMNS
        &&& self.double@.len() == NUM_COLUMNS
        &&& self.matches@.len() == ps.len()
        &&& forall|k: int|
            0 <= k < NUM_COLUMNS ==> #[trigger] self.single@[k] == single_count_of(
                ts,
                (k + 2) as u32,
            )
        &&& forall|k: int|
            0 <= k < NUM_COLUMNS ==> #[trigger] self.double@[k] == double_count_of(
                ts,
                (k + 2) as u32,
            )
        &&& forall|k: int|
            0 <= k < ps.len() ==> #[trigger] self.matches@[k] == match_count_of(ts, ps[k]@)
    }

    /// A tally of no trials.
    pub fn new(n_patterns: usize) -> (r: Tally)
        ensures
            r.wf(n_patterns as nat),
            r.trials == 0,
            forall|k: int| 0 <= k < NUM_COLUMNS ==> #[trigger] r.single@[k] == 0,
            forall|k: int| 0 <= k < NUM_COLUMNS ==> #[trigger] r.double@[k] == 0,
            forall|k: int| 0 <= k < n_patterns ==> #[trigger] r.matches@[k] == 0,
    {
        let mut single: Vec<u32> = Vec::new();
        let mut double: Vec<u32> = Vec::new();
        let mut c: usize = 0;
        while c < NUM_COLUMNS
            invariant
                c <= NUM_COLUMNS,
                single@.len() == c,
                double@.len() == c,
                forall|k: int| 0 <= k < c ==> #[trigger] single@[k] == 0,
                forall|k: int| 0 <= k < c ==> #[trigger] double@[k] == 0,
            decreases NUM_COLUMNS - c,
        {
            single.push(0);
            double.push(0);
            c = c + 1;
        }
        let mut matches: Vec<u32> = Vec::new();
        let mut p: usize = 0;
        while p < n_patterns
            invariant
                p <= n_patterns,
                matches@.len() == p,
                forall|k: int| 0 <= k < p ==> #[trigger] matches@[k] == 0,
            decreases n_patterns - p,
        {
            matches.push(0);
            p = p + 1;
        }
        Tally { trials: 0, single, double, matches }
    }

    /// Folds one trial into the counts: each column it reaches, each column it
    /// doubles and each pattern it matches gains one.
    pub fn record(&mut self, t: &Trial, patterns: &Vec<Vec<u32>>)
        requires
            t.wf(),
            old(self).wf(patterns@.len()),
            old(self).trials < u32::MAX,
        ensures
            final(self).wf(patterns@.len()),
            final(self).trials == old(self).trials + 1,
            forall|k: int|
                0 <= k < NUM_COLUMNS ==> #[trigger] final(self).single@[k] == old(self).single@[k]
                    + if sums_of(*t).contains((k + 2) as u32) {
                    1int
                } else {
                    0int
                },
            forall|k: int|
                0 <= k < NUM_COLUMNS ==> #[trigger] final(self).double@[k] == old(self).double@[k]
                    + if aligned_double(sums_of(*t), (k + 2) as u32) {
                    1int
                } else {
                    0int
                },
            forall|k: int|
                0 <= k < patterns@.len() ==> #[trigger] final(self).matches@[k]
                    == old(self).matches@[k] + if shares_any(sums_of(*t), patterns@[k]@) {
                    1int
                } else {
                    0int
                },
    {
        let vals = outcome_set(t);
        let ghost s0 = self.single@;
        let ghost d0 = self.double@;
        let ghost m0 = self.matches@;
        let trials = self.trials;
        let mut c: usize = 0;
        while c < NUM_COLUMNS
            invariant
                c <= NUM_COLUMNS,
                vals@ == sums_of(*t),
                trials == old(self).trials,
                trials < u32::MAX,
                self.single@.len() == NUM_COLUMNS,
                self.double@.len() == NUM_COLUMNS,
                s0 == old(self).single@,
                d0 == old(self).double@,
                old(self).wf(patterns@.len()),
                forall|k: int|
                    0 <= k < c ==> #[trigger] self.single@[k] == s0[k] + if vals@.contains(
                        (k + 2) as u32,
                    ) {
                        1int
                    } else {
                        0int
                    },
                forall|k: int|
                    0 <= k < c ==> #[trigger] self.double@[k] == d0[k] + if aligned_double(
                        vals@,
                        (k + 2) as u32,
                    ) {
                        1int
                    } else {
                        0int
                    },
                forall|k: int| c <= k < NUM_COLUMNS ==> #[trigger] self.single@[k] == s0[k],
                forall|k: int| c <= k < NUM_COLUMNS ==> #[trigger] self.double@[k] == d0[k],
                self.matches@ == m0,
                m0 == old(self).matches@,
            decreases NUM_COLUMNS - c,
        {
            let j: u32 = c as u32 + 2;
            assert(s0[c as int] <= trials);
            assert(d0[c as int] <= s0[c as int]);
            if touches(&vals, j) {
                let v = self.single[c];
                self.single.set(c, v + 1);
            }
            if is_double(&vals, j) {
                proof {
                    lemma_double_touches(vals@, j);
                }
                let v = self.double[c];
                self.double.set(c, v + 1);
            }
            c = c + 1;
        }
        let ghost s1 = self.single@;
        let ghost d1 = self.double@;
        let mut p: usize = 0;
        while p < patterns.len()
            invariant
                self.single@ == s1,
                self.double@ == d1,
                p <= patterns@.len(),
                vals@ == sums_of(*t),
                trials == old(self).trials,
                trials < u32::MAX,
                self.matches@.len() == patterns@.len(),
                old(self).wf(patterns@.len()),
                m0 == old(self).matches@,
                forall|k: int|
                    0 <= k < p ==> #[trigger] self.matches@[k] == m0[k] + if shares_any(
                        vals@,
                        patterns@[k]@,
                    ) {
                        1int
                    } else {
                        0int
                    },
                forall|k: int| p <= k < patterns@.len() ==> #[trigger] self.matches@[k] == m0[k],
            decreases patterns@.len() - p,
        {
            assert(m0[p as int] <= trials);
            if contains_any(&vals, patterns[p].as_slice()) {
                let v = self.matches[p];
                self.matches.set(p, v + 1);
            }
            p = p + 1;
        }
        self.trials = trials + 1;
    }
}

/// In any run, a column's double count is at most its single count, which is at
/// most the number of trials; a pattern's match count is at most the number of
/// trials.
pub proof fn lemma_counts_bounded(ts: Seq<Trial>, j: u32, p: Seq<u32>)
    ensures
        double_count_of(ts, j) <= single_count_of(ts, j) <= ts.len(),
        match_count_of(ts, p) <= ts.len(),
    decreases ts.len(),
{
    if ts.len() > 0 {
        lemma_counts_bounded(ts.drop_last(), j, p);
        if aligned_double(sums_of(ts.last()), j) {
            lemma_double_touches(sums_of(ts.last()), j);
        }
    }
}

/// The counts of the given trials against `patterns`.
pub fn tally_of(trials: &Vec<Trial>, patterns: &Vec<Vec<u32>>) -> (r: Tally)
    requires
        trials@.len() < u32::MAX,
        forall|i: int| 0 <= i < trials@.len() ==> (#[trigger] trials@[i]).wf(),
    ensures
        r.wf(patterns@.len()),
        r.counts(trials@, patterns@),
{
    let mut t = Tally::new(patterns.len());
    let mut i: usize = 0;
    while i < trials.len()
        invariant
            i <= trials@.len(),
            trials@.len() < u32::MAX,
            forall|i: int| 0 <= i < trials@.len() ==> (#[trigger] trials@[i]).wf(),
            t.wf(patterns@.len()),
            t.counts(trials@.subrange(0, i as int), patterns@),
        decreases trials@.len() - i,
    {
        let ghost before = t;
        t.record(&trials[i], patterns);
        proof {
            let ts = trials@.subrange(0, i + 1);
            assert(ts.drop_last() =~= trials@.subrange(0, i as int));
            assert(ts.last() == trials@[i as int]);
        }
        i = i + 1;
    }
    assert(trials@.subrange(0, trials@.len() as int) =~= trials@);
    t
}

impl Tally {
    /// Trials that reached column `j`.
    pub fn single_count(&self, j: u32) -> (r: u32)
        requires
            self.single@.len() == NUM_COLUMNS,
            valid_column(j),
        ensures
            r == self.single_of(j),
    {
        self.single[(j - MIN_COLUMN) as usize]
    }

    /// Trials in which one split of the dice gave column `j` twice.
    pub fn double_count(&self, j: u32) -> (r: u32)
        requires
            self.double@.len() == NUM_COLUMNS,
            valid_column(j),
        ensures
            r == self.double_of(j),
    {
        self.double[(j - MIN_COLUMN) as usize]
    }

    /// Fraction of trials that reached column `j`.
    pub fn single_pct(&self, j: u32) -> (r: Ratio)
        requires
            self.wf(self.matches@.len()),
            self.trials > 0,
            valid_column(j),
        ensures
            r.num == self.single_of(j),
            r.den == self.trials,
            r.num <= r.den,
    {
        let k = (j - MIN_COLUMN) as usize;
        Ratio { num: self.single[k] as u64, den: self.trials as u64 }
    }

    /// Fraction of trials that doubled column `j`.
    pub fn double_pct(&self, j: u32) -> (r: Ratio)
        requires
            self.wf(self.matches@.len()),
            self.trials > 0,
            valid_column(j),
        ensures
            r.num == self.double_of(j),
            r.den == self.trials,
            r.num <= r.den,
    {
        let k = (j - MIN_COLUMN) as usize;
        Ratio { num: self.double[k] as u64, den: self.trials as u64 }
    }

    /// Expected advances of column `j` per turn: singles plus doubles, per trial.
    pub fn expected_advances(&self, j: u32) -> (r: Ratio)
        requires
            self.wf(self.matches@.len()),
            self.trials > 0,
            valid_column(j),
        ensures
            r.num == self.single_of(j) + self.double_of(j),
            r.den == self.trials,
            r.num <= 2 * r.den,
    {
        let k = (j - MIN_COLUMN) as usize;
        Ratio { num: self.single[k] as u64 + self.double[k] as u64, den: self.trials as u64 }
    }

    /// Expected turns to finish column `j`: its top distance divided by the
    /// expected advances per turn. Unbounded when the column never advanced.
    pub fn expected_turns_to_top(&self, j: u32) -> (r: Result<Ratio, SimError>)
        requires
            self.wf(self.matches@.len()),
            self.trials > 0,
            valid_column(j),
        ensures
            self.single_of(j) + self.double_of(j) == 0 <==> r is Err,
            r is Err ==> r == Err::<Ratio, SimError>(SimError::DivisionByZeroInExpectation { column: j }),
            r is Ok ==> r->Ok_0.num == top_distance_spec(j) * self.trials
                && r->Ok_0.den == self.single_of(j) + self.double_of(j),
    {
        let k = (j - MIN_COLUMN) as usize;
        let advances = self.single[k] as u64 + self.double[k] as u64;
        if advances == 0 {
            Err(SimError::DivisionByZeroInExpectation { column: j })
        } else {
            let top = top_distance(j) as u64;
            assert(top <= 12);
            assert(top * (self.trials as u64) <= 12 * (u32::MAX as u64)) by (nonlinear_arith)
                requires top <= 12;
            Ok(Ratio { num: top * self.trials as u64, den: advances })
        }
    }

    /// Fraction of trials that matched pattern `k`.
    pub fn match_pct(&self, k: usize) -> (r: Ratio)
        requires
            self.wf(self.matches@.len()),
            self.trials > 0,
            k < self.matches@.len(),
        ensures
            r.num == self.matches@[k as int],
            r.den == self.trials,
            r.num <= r.den,
    {
        Ratio { num: self.matches[k] as u64, den: self.trials as u64 }
    }
}

/// Counting a run split in two parts gives the sums of the parts' counts.
pub proof fn lemma_counts_append(a: Seq<Trial>, b: Seq<Trial>, j: u32, p: Seq<u32>)
    ensures
        single_count_of(a + b, j) == single_count_of(a, j) + single_count_of(b, j),
        double_count_of(a + b, j) == double_count_of(a, j) + double_count_of(b, j),
        match_count_of(a + b, p) == match_count_of(a, p) + match_count_of(b, p),
    decreases b.len(),
{
    if b.len() == 0 {
        assert(a + b =~= a);
    } else {
        lemma_counts_append(a, b.drop_last(), j, p);
        assert((a + b).drop_last() =~= a + b.drop_last());
        assert((a + b).last() == b.last());
    }
}

impl Tally {
    /// Every count of `self` is the sum of the matching counts of `a` and `b`.
    pub open spec fn is_sum_of(&self, a: Tally, b: Tally) -> bool {
        &&& self.trials == a.trials + b.trials
        &&& self.single@.len() == a.single@.len()
        &&& self.double@.len() == a.double@.len()
        &&& self.matches@.len() == a.matches@.len()
        &&& forall|k: int|
            0 <= k < self.single@.len() ==> #[trigger] self.single@[k] == a.single@[k]
                + b.single@[k]
        &&& forall|k: int|
            0 <= k < self.double@.len() ==> #[trigger] self.double@[k] == a.double@[k]
                + b.double@[k]
        &&& forall|k: int|
            0 <= k < self.matches@.len() ==> #[trigger] self.matches@[k] == a.matches@[k]
                + b.matches@[k]
    }

    /// Adds the counts of `other`, a tally of a separate run against the same
    /// patterns, to these.
    pub fn merge(&mut self, other: &Tally)
        requires
            old(self).wf(old(self).matches@.len()),
            other.wf(old(self).matches@.len()),
            old(self).trials + other.trials <= u32::MAX,
        ensures
            final(self).wf(old(self).matches@.len()),
            final(self).is_sum_of(*old(self), *other),
    {
        let ghost a = *self;
        let mut c: usize = 0;
        while c < NUM_COLUMNS
            invariant
                c <= NUM_COLUMNS,
                a.wf(a.matches@.len()),
                other.wf(a.matches@.len()),
                a.trials + other.trials <= u32::MAX,
                self.trials == a.trials,
                self.matches@ == a.matches@,
                self.single@.len() == NUM_COLUMNS,
                self.double@.len() == NUM_COLUMNS,
                forall|k: int| 0 <= k < c ==> #[trigger] self.single@[k] == a.single@[k] + other.single@[k],
                forall|k: int| 0 <= k < c ==> #[trigger] self.double@[k] == a.double@[k] + other.double@[k],
                forall|k: int| c <= k < NUM_COLUMNS ==> #[trigger] self.single@[k] == a.single@[k],
                forall|k: int| c <= k < NUM_COLUMNS ==> #[trigger] self.double@[k] == a.double@[k],
            decreases NUM_COLUMNS - c,
        {
            assert(a.single@[c as int] <= a.trials && other.single@[c as int] <= other.trials);
            let s = self.single[c] + other.single[c];
            self.single.set(c, s);
            let d = self.double[c] + other.double[c];
            self.double.set(c, d);
            c = c + 1;
        }
        let ghost s1 = self.single@;
        let ghost d1 = self.double@;
        let mut p: usize = 0;
        while p < self.matches.len()
            invariant
                p <= self.matches@.len(),
                self.matches@.len() == a.matches@.len(),
                a.wf(a.matches@.len()),
                other.wf(a.matches@.len()),
                a.trials + other.trials <= u32::MAX,
                self.trials == a.trials,
                self.single@ == s1,
                self.double@ == d1,
                forall|k: int| 0 <= k < p ==> #[trigger] self.matches@[k] == a.matches@[k] + other.matches@[k],
                forall|k: int| p <= k < a.matches@.len() ==> #[trigger] self.matches@[k] == a.matches@[k],
            decreases a.matches@.len() - p,
        {
            assert(a.matches@[p as int] <= a.trials && other.matches@[p as int] <= other.trials);
            let m = self.matches[p] + other.matches[p];
            self.matches.set(p, m);
            p = p + 1;
        }
        self.trials = self.trials + other.trials;
    }
}

/// Merging the tallies of two runs gives the tally of the two runs one after
/// the other: partitions of a run may be counted apart and then summed.
pub proof fn lemma_merge_counts(
    a: Tally,
    b: Tally,
    m: Tally,
    ta: Seq<Trial>,
    tb: Seq<Trial>,
    ps: Seq<Vec<u32>>,
)
    requires
        a.counts(ta, ps),
        b.counts(tb, ps),
        m.is_sum_of(a, b),
    ensures
        m.counts(ta + tb, ps),
{
    assert forall|k: int| 0 <= k < NUM_COLUMNS implies #[trigger] m.single@[k] == single_count_of(
        ta + tb,
        (k + 2) as u32,
    ) && m.double@[k] == double_count_of(ta + tb, (k + 2) as u32) by {
        lemma_counts_append(ta, tb, (k + 2) as u32, seq![]);
    }
    assert forall|k: int| 0 <= k < ps.len() implies #[trigger] m.matches@[k] == match_count_of(
        ta + tb,
        ps[k]@,
    ) by {
        lemma_counts_append(ta, tb, 2, ps[k]@);
    }
    assert forall|k: int| 0 <= k < NUM_COLUMNS implies #[trigger] m.double@[k] == double_count_of(
        ta + tb,
        (k + 2) as u32,
    ) by {
        assert(m.single@[k] == single_count_of(ta + tb, (k + 2) as u32));
    }
}

} // verus!
