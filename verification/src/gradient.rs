use vstd::prelude::*;

verus! {

/// The bits of a single-precision number without its sign: exponent and
/// fraction.
pub open spec fn magnitude(bits: u32) -> u32 {
    bits & 0x7fff_ffff
}

/// Whether the sign bit of a single-precision number is set.
pub open spec fn is_negative(bits: u32) -> bool {
    bits & 0x8000_0000 != 0
}

/// Whether the bits are those of a number, finite or infinite: they are not
/// where the exponent is all ones and the fraction is not zero.
pub open spec fn is_number(bits: u32) -> bool {
    magnitude(bits) <= 0x7f80_0000
}

/// A whole number that stands for the single-precision number with these bits:
/// its magnitude bits, taken as negative under a set sign bit. Both zeros get
/// 0, and a larger number gets a larger key.
pub open spec fn number_key(bits: u32) -> int {
    if is_negative(bits) {
        -(magnitude(bits) as int)
    } else {
        magnitude(bits) as int
    }
}

/// The key of a stop's position: that of the number, and the least key of all
/// for bits that are no number, so that such a stop reaches no query.
pub open spec fn spec_stop_key(bits: u32) -> i64 {
    if is_number(bits) {
        number_key(bits) as i64
    } else {
        i64::MIN
    }
}

/// The key of a query: that of the number, and the greatest key of all for
/// bits that are no number, so that no stop reaches such a query.
pub open spec fn spec_query_key(bits: u32) -> i64 {
    if is_number(bits) {
        number_key(bits) as i64
    } else {
        i64::MAX
    }
}

/// The key of the number with the given bits, for bits that are a number.
fn key_of_number(bits: u32) -> (key: i64)
    ensures
        key == number_key(bits),
        -0x7fff_ffff <= key <= 0x7fff_ffff,
{
    let low: u32 = bits & 0x7fff_ffff;
    assert(low <= 0x7fff_ffff) by (bit_vector)
        requires
            low == bits & 0x7fff_ffff,
    ;
    if bits & 0x8000_0000 != 0 {
        -(low as i64)
    } else {
        low as i64
    }
}

/// Computes the key of a stop whose position is the single-precision number
/// with the given bits.
pub fn stop_key(bits: u32) -> (key: i64)
    ensures
        key == spec_stop_key(bits),
{
    if bits & 0x7fff_ffff <= 0x7f80_0000 {
        key_of_number(bits)
    } else {
        i64::MIN
    }
}

/// Computes the key of a query that is the single-precision number with the
/// given bits.
pub fn query_key(bits: u32) -> (key: i64)
    ensures
        key == spec_query_key(bits),
{
    if bits & 0x7fff_ffff <= 0x7f80_0000 {
        key_of_number(bits)
    } else {
        i64::MAX
    }
}

/// Keys are ordered as the numbers are: among numbers without a sign by their
/// bits, among numbers with a sign against their bits, and a number with a sign
/// never above one without. The two zeros share a key.
pub proof fn lemma_keys_follow_the_numbers(a: u32, b: u32)
    ensures
        !is_negative(a) && !is_negative(b) ==> (number_key(a) <= number_key(b) <==> a <= b),
        is_negative(a) && is_negative(b) ==> (number_key(a) <= number_key(b) <==> a >= b),
        is_negative(a) && !is_negative(b) ==> number_key(a) <= number_key(b),
        number_key(0) == 0,
        number_key(0x8000_0000) == 0,
{
    assert(a & 0x8000_0000 == 0 ==> a & 0x7fff_ffff == a) by (bit_vector);
    assert(b & 0x8000_0000 == 0 ==> b & 0x7fff_ffff == b) by (bit_vector);
    assert(a & 0x8000_0000 != 0 ==> a & 0x7fff_ffff == a - 0x8000_0000) by (bit_vector);
    assert(b & 0x8000_0000 != 0 ==> b & 0x7fff_ffff == b - 0x8000_0000) by (bit_vector);
    assert(0u32 & 0x8000_0000 == 0 && 0u32 & 0x7fff_ffff == 0) by (bit_vector);
    assert(0x8000_0000u32 & 0x8000_0000 != 0 && 0x8000_0000u32 & 0x7fff_ffff == 0)
        by (bit_vector);
}

/// What is no number is in no order: a stop reaches a query only if both are
/// numbers, and then exactly if the stop's number is at or above the query's.
pub proof fn lemma_only_numbers_reach(stop: u32, query: u32)
    ensures
        spec_stop_key(stop) >= spec_query_key(query) <==> is_number(stop) && is_number(query)
            && number_key(stop) >= number_key(query),
{
    assert(stop & 0x7fff_ffff <= 0x7fff_ffff) by (bit_vector);
    assert(query & 0x7fff_ffff <= 0x7fff_ffff) by (bit_vector);
}

/// Where a query falls among the stops of a gradient.
#[derive(Clone, Copy, Debug, PartialEq, Eq, Structural)]
pub enum Segment {
    /// The gradient has no stop: there is no colour to take.
    Empty,
    /// The colour is that of the stop with this index, as it is.
    Stop(usize),
    /// The colour lies between those of the two stops with these indices,
    /// which follow one another.
    Blend { below: usize, above: usize },
}

/// The first index at or after `from` whose stop is at or above `s`, or the
/// number of stops where there is none.
pub open spec fn first_reaching(stops: Seq<i64>, s: i64, from: int) -> int
    decreases stops.len() - from,
{
    if from < 0 || from >= stops.len() {
        stops.len() as int
    } else if stops[from] >= s {
        from
    } else {
        first_reaching(stops, s, from + 1)
    }
}

/// The segment of a query `s` among stops at the positions `stops`. Without
/// stops there is none, and a single stop is taken whatever the query. Among
/// more, the first stop at or above the query decides: it is blended with the
/// stop before it, or taken as it is where it is the first of all; a query
/// above every stop takes the last.
pub open spec fn spec_locate(stops: Seq<i64>, s: i64) -> Segment {
    let i = first_reaching(stops, s, 0);
    if stops.len() == 0 {
        Segment::Empty
    } else if stops.len() == 1 || i == 0 {
        Segment::Stop(0)
    } else if i == stops.len() {
        Segment::Stop((stops.len() - 1) as usize)
    } else {
        Segment::Blend { below: (i - 1) as usize, above: i as usize }
    }
}

/// What `first_reaching` finds: an index from `from` on, with every stop
/// between `from` and it below the query, and with a stop at or above the query
/// unless it is the number of stops.
pub proof fn lemma_first_reaching(stops: Seq<i64>, s: i64, from: int)
    requires
        0 <= from <= stops.len(),
    ensures
        from <= first_reaching(stops, s, from) <= stops.len(),
        forall|j: int| from <= j < first_reaching(stops, s, from) ==> stops[j] < s,
        first_reaching(stops, s, from) < stops.len() ==> stops[first_reaching(stops, s, from)]
            >= s,
    decreases stops.len() - from,
{
    if from < stops.len() && stops[from] < s {
        lemma_first_reaching(stops, s, from + 1);
    }
}

/// Finds the segment of the query `s` among stops at the positions `stops`.
/// Positions are whole numbers, larger meaning further along: keys of
/// single-precision numbers, or any scale of the caller's choice. The stops are
/// not checked to be in order. The weight inside a blend is left to the caller.
pub fn locate(stops: &Vec<i64>, s: i64) -> (seg: Segment)
    ensures
        seg == spec_locate(stops@, s),
{
    let n = stops.len();
    if n == 0 {
        return Segment::Empty;
    }
    if n == 1 {
        return Segment::Stop(0);
    }
    let mut i: usize = 0;
    while i < n
        invariant
            n == stops@.len(),
            0 <= i <= n,
            first_reaching(stops@, s, 0) == first_reaching(stops@, s, i as int),
        decreases n - i,
    {
        if stops[i] >= s {
            if i == 0 {
                return Segment::Stop(0);
            }
            return Segment::Blend { below: i - 1, above: i };
        }
        i = i + 1;
    }
    Segment::Stop(n - 1)
}

/// A gradient without stops has no segment, and a gradient of one stop takes
/// that stop, whatever the query.
pub proof fn lemma_locate_few_stops(stops: Seq<i64>, s: i64)
    requires
        stops.len() <= 1,
    ensures
        stops.len() == 0 ==> spec_locate(stops, s) == Segment::Empty,
        stops.len() == 1 ==> spec_locate(stops, s) == Segment::Stop(0),
{
}

/// Queries beyond the stops are clamped: a query below every stop takes the
/// first stop, a query above every stop the last.
pub proof fn lemma_locate_clamps(stops: Seq<i64>, s: i64)
    requires
        1 <= stops.len() <= usize::MAX,
    ensures
        (forall|i: int| 0 <= i < stops.len() ==> s < stops[i]) ==> spec_locate(stops, s)
            == Segment::Stop(0),
        (forall|i: int| 0 <= i < stops.len() ==> s > stops[i]) ==> spec_locate(stops, s)
            == Segment::Stop((stops.len() - 1) as usize),
{
    lemma_first_reaching(stops, s, 0);
}

/// A query on the first stop takes that stop as it is.
pub proof fn lemma_locate_first_stop(stops: Seq<i64>)
    requires
        stops.len() >= 1,
    ensures
        spec_locate(stops, stops[0]) == Segment::Stop(0),
{
}

/// Between two stops the whole stretch is one blend: a query above the first
/// stop and up to the second is blended from the two, a query on or below the
/// first takes the first, and a query above the second takes the second.
pub proof fn lemma_locate_two_stops(a: i64, b: i64, s: i64)
    ensures
        s <= a ==> spec_locate(seq![a, b], s) == Segment::Stop(0),
        a < s <= b ==> spec_locate(seq![a, b], s) == (Segment::Blend { below: 0, above: 1 }),
        a < s && b < s ==> spec_locate(seq![a, b], s) == Segment::Stop(1),
{
    reveal_with_fuel(first_reaching, 3);
}

/// A blend is between the two stops that enclose the query: they follow one
/// another, the lower lies below the query, and the upper at or above it.
pub proof fn lemma_locate_blend_encloses(stops: Seq<i64>, s: i64)
    requires
        stops.len() <= usize::MAX,
    ensures
        spec_locate(stops, s) matches Segment::Blend { below, above } ==> {
            &&& above == below + 1
            &&& above < stops.len()
            &&& stops[below as int] < s <= stops[above as int]
        },
        spec_locate(stops, s) matches Segment::Stop(k) ==> k < stops.len(),
{
    lemma_first_reaching(stops, s, 0);
}

/// A query on the last of two or more stops that rise strictly towards it is
/// blended from the stop before the last and the last, and meets the last
/// stop's position exactly.
pub proof fn lemma_locate_last_stop(stops: Seq<i64>)
    requires
        2 <= stops.len() <= usize::MAX,
        forall|i: int| 0 <= i < stops.len() - 1 ==> #[trigger] stops[i] < stops.last(),
    ensures
        spec_locate(stops, stops.last()) == (Segment::Blend {
            below: (stops.len() - 2) as usize,
            above: (stops.len() - 1) as usize,
        }),
{
    lemma_first_reaching(stops, stops.last(), 0);
}

} // verus!
