use vstd::prelude::*;
use rand::Rng;
use rand::seq::SliceRandom;

verus! {

/// `rand::rngs::ThreadRng`, taken as it is: nothing is known of what it holds.
#[verifier::external_type_specification]
#[verifier::external_body]
pub struct ExThreadRng(rand::rngs::ThreadRng);

/// `rand::thread_rng`: a handle on the calling thread's generator. Nothing is
/// claimed of the handle.
pub assume_specification[ rand::thread_rng ]() -> (rng: rand::rngs::ThreadRng)
;

/// `Rng::gen_range` on a half-open range of `u32`. The range must not be empty,
/// since `gen_range` panics on an empty one; the draw then lies inside it.
/// Which number comes is left open.
#[verifier::external_body]
pub(crate) fn draw_range(rng: &mut rand::rngs::ThreadRng, low: u32, high: u32) -> (n: u32)
    requires
        low < high,
    ensures
        low <= n < high,
{
    rng.gen_range(low..high)
}

/// `Rng::gen_ratio`: a coin that lands `true` with chance `numerator` in
/// `denominator`. It panics on a zero denominator and on a numerator above the
/// denominator, so both are ruled out. As its documentation promises, the
/// answer is certain only at the two ends.
#[verifier::external_body]
pub(crate) fn draw_ratio(
    rng: &mut rand::rngs::ThreadRng,
    numerator: u32,
    denominator: u32,
) -> (hit: bool)
    requires
        0 < denominator,
        numerator <= denominator,
    ensures
        numerator == denominator ==> hit,
        numerator == 0 ==> !hit,
{
    rng.gen_ratio(numerator, denominator)
}

/// `SliceRandom::choose` on a slice of characters: `None` exactly for an empty
/// slice, otherwise one of its elements. Which element comes is left open.
#[verifier::external_body]
pub(crate) fn pick(rng: &mut rand::rngs::ThreadRng, glyphs: &Vec<char>) -> (c: Option<char>)
    ensures
        c is None <==> glyphs@.len() == 0,
        c matches Some(g) ==> glyphs@.contains(g),
{
    glyphs.choose(rng).copied()
}

} // verus!
