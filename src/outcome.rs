use vstd::prelude::*;

verus! {

/// Lowest and highest column values.
pub const MIN_COLUMN: u32 = 2;
pub const MAX_COLUMN: u32 = 12;

pub open spec fn valid_die(d: u32) -> bool {
    1 <= d <= 6
}

pub open spec fn valid_column(j: u32) -> bool {
    MIN_COLUMN <= j <= MAX_COLUMN
}

/// One roll of four dice.
#[derive(Clone, Copy, Debug, PartialEq, Eq, Structural)]
pub struct Trial {
    pub d1: u32,
    pub d2: u32,
    pub d3: u32,
    pub d4: u32,
}

impl Trial {
    pub open spec fn wf(&self) -> bool {
        valid_die(self.d1) && valid_die(self.d2) && valid_die(self.d3) && valid_die(self.d4)
    }
}

/// The six pair sums of a roll: the three ways of splitting four dice into
/// two pairs, each split giving two adjacent sums.
pub open spec fn sums_of(t: Trial) -> Seq<u32> {
    seq![
        (t.d1 + t.d2) as u32,
        (t.d3 + t.d4) as u32,
        (t.d1 + t.d3) as u32,
        (t.d2 + t.d4) as u32,
        (t.d1 + t.d4) as u32,
        (t.d2 + t.d3) as u32,
    ]
}

/// `j` is both sums of one split: positions (0,1), (2,3) or (4,5).
pub open spec fn aligned_double(s: Seq<u32>, j: u32) -> bool {
    (s[0] == j && s[1] == j) || (s[2] == j && s[3] == j) || (s[4] == j && s[5] == j)
}

/// Some value of `of` occurs in `vals`.
pub open spec fn shares_any(vals: Seq<u32>, of: Seq<u32>) -> bool {
    exists|k: int| 0 <= k < of.len() && vals.contains(#[trigger] of[k])
}

/// The six sums of a roll, in the order of `sums_of`.
pub fn outcome_set(t: &Trial) -> (r: [u32; 6])
    requires
        t.wf(),
    ensures
        r@ == sums_of(*t),
        forall|i: int| 0 <= i < 6 ==> valid_column(#[trigger] r@[i]),
{
    let r = [t.d1 + t.d2, t.d3 + t.d4, t.d1 + t.d3, t.d2 + t.d4, t.d1 + t.d4, t.d2 + t.d3];
    assert(r@ =~= sums_of(*t));
    r
}

/// Whether `x` occurs in `vals`.
pub fn member(vals: &[u32], x: u32) -> (r: bool)
    ensures
        r == vals@.contains(x),
{
    let mut i: usize = 0;
    while i < vals.len()
        invariant
            i <= vals@.len(),
            forall|k: int| 0 <= k < i ==> vals@[k] != x,
        decreases vals@.len() - i,
    {
        if vals[i] == x {
            return true;
        }
        i = i + 1;
    }
    false
}

/// Whether column `j` is reached by any of the six sums.
pub fn touches(vals: &[u32; 6], j: u32) -> (r: bool)
    ensures
        r == vals@.contains(j),
{
    member(vals, j)
}

/// Whether column `j` is both sums of one and the same split of the dice.
pub fn is_double(vals: &[u32; 6], j: u32) -> (r: bool)
    ensures
        r == aligned_double(vals@, j),
{
    (vals[0] == j && vals[1] == j) || (vals[2] == j && vals[3] == j) || (vals[4] == j && vals[5]
        == j)
}

/// Whether any value of `of` occurs in `vals`.
pub fn contains_any(vals: &[u32], of: &[u32]) -> (r: bool)
    ensures
        r == shares_any(vals@, of@),
{
    let mut i: usize = 0;
    while i < of.len()
        invariant
            i <= of@.len(),
            forall|k: int| 0 <= k < i ==> !vals@.contains(#[trigger] of@[k]),
        decreases of@.len() - i,
    {
        if member(vals, of[i]) {
            return true;
        }
        i = i + 1;
    }
    false
}

/// Whether a roll with sums `vals` matches the pattern `pattern`.
pub fn pattern_matches(pattern: &[u32], vals: &[u32; 6]) -> (r: bool)
    ensures
        r == shares_any(vals@, pattern@),
{
    contains_any(vals, pattern)
}

/// A double on a column is also a touch of it.
pub proof fn lemma_double_touches(s: Seq<u32>, j: u32)
    requires
        s.len() == 6,
        aligned_double(s, j),
    ensures
        s.contains(j),
{
    if s[0] == j {
        assert(s[0] == j);
    } else if s[2] == j {
        assert(s[2] == j);
    } else {
        assert(s[4] == j);
    }
}

} // verus!
