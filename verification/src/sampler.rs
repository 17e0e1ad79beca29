use vstd::prelude::*;

verus! {

/// A position inside a range as a fraction of its length: `num` steps out of
/// `den`. It is kept as the two counts, not reduced.
#[derive(Clone, Copy, Debug, PartialEq, Eq, Structural)]
pub struct Ratio {
    pub num: u32,
    pub den: u32,
}

/// A closed range of rows, `start..=end`.
#[derive(Clone, Copy, Debug, PartialEq, Eq, Structural)]
pub struct RowRange {
    pub start: i32,
    pub end: i32,
}

impl RowRange {
    /// Whether `v` lies in the range, both ends included.
    pub open spec fn in_band(self, v: int) -> bool {
        self.start <= v <= self.end
    }

    /// Where `v` lies between the two ends: `(v - start) / (end - start)` for a
    /// row in the band, nothing for a row outside it.
    pub open spec fn spec_sample(self, v: int) -> Option<Ratio> {
        if self.in_band(v) {
            Some(Ratio { num: (v - self.start) as u32, den: (self.end - self.start) as u32 })
        } else {
            None
        }
    }

    /// Samples the range at row `v`. A row in the band gives its distance from
    /// `start` over the length of the range, so `start` gives 0 and `end` gives
    /// 1; a row outside the band gives `None`, which is thereby told apart from
    /// a position of zero.
    pub fn sample(&self, v: i32) -> (p: Option<Ratio>)
        ensures
            p == self.spec_sample(v as int),
            p is None <==> v < self.start || v > self.end,
    {
        if v < self.start || v > self.end {
            None
        } else {
            let num: i64 = v as i64 - self.start as i64;
            let den: i64 = self.end as i64 - self.start as i64;
            Some(Ratio { num: num as u32, den: den as u32 })
        }
    }
}

/// Sampling can be undone: for a range that is not empty and a row `v` in its
/// band, the position `p` that `sample` gives is a fraction of a positive
/// length with `start + p * (end - start) == v`, here cleared of the division.
pub proof fn lemma_sample_round_trip(range: RowRange, v: int)
    requires
        range.start < range.end,
        range.in_band(v),
    ensures
        range.spec_sample(v) is Some,
        range.spec_sample(v)->0.den == range.end - range.start,
        range.spec_sample(v)->0.den > 0,
        range.start * range.spec_sample(v)->0.den + range.spec_sample(v)->0.num * (range.end
            - range.start) == v * range.spec_sample(v)->0.den,
{
    let len = range.end - range.start;
    assert(range.start * len + (v - range.start) * len == v * len) by (nonlinear_arith);
}

/// Rows outside the band have no position: neither below `start` nor above
/// `end`.
pub proof fn lemma_sample_out_of_band(range: RowRange, v: int)
    requires
        v < range.start || v > range.end,
    ensures
        range.spec_sample(v) is None,
{
}

} // verus!
