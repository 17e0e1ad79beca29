use vstd::prelude::*;
use crate::sampler::{Ratio, RowRange};

verus! {

/// A colour as a terminal takes it: one byte for each of red, green and blue.
#[derive(Clone, Copy, Debug, PartialEq, Eq, Structural)]
pub struct Shade {
    pub r: u8,
    pub g: u8,
    pub b: u8,
}

impl Shade {
    /// Black: nothing of any of the three.
    pub open spec fn spec_black() -> Shade {
        Shade { r: 0, g: 0, b: 0 }
    }

    /// The colour of an unlit cell.
    #[verifier::when_used_as_spec(spec_black)]
    pub fn black() -> (s: Shade)
        ensures
            s == Self::spec_black(),
    {
        Shade { r: 0, g: 0, b: 0 }
    }
}

/// A gradient as the engine reads it: the colour of its first stop, and the
/// colour it gives at each row of a tail, from the far end (`steps[0]`) to the
/// head (the last of `steps`).
pub struct Ramp {
    pub base: Shade,
    pub steps: Vec<Shade>,
}

impl Ramp {
    /// Reads a gradient off at each row of a tail of `tail` rows. The gradient
    /// is asked for its colour at the position of each row within the tail,
    /// from `0 / tail` at the far end to `tail / tail` at the head.
    pub fn sampled<F: Fn(Ratio) -> Shade>(tail: u16, base: Shade, gradient: F) -> (ramp: Ramp)
        requires
            forall|p: Ratio| gradient.requires((p,)),
        ensures
            ramp.base == base,
            ramp.steps@.len() == tail + 1,
            forall|k: int|
                0 <= k <= tail ==> gradient.ensures(
                    (Ratio { num: k as u32, den: tail as u32 },),
                    #[trigger] ramp.steps@[k],
                ),
    {
        let range = RowRange { start: 0, end: tail as i32 };
        let mut steps: Vec<Shade> = Vec::new();
        let mut row: u32 = 0;
        while row <= tail as u32
            invariant
                row <= tail + 1,
                range == (RowRange { start: 0, end: tail as i32 }),
                steps@.len() == row,
                forall|p: Ratio| gradient.requires((p,)),
                forall|k: int|
                    0 <= k < row ==> gradient.ensures(
                        (Ratio { num: k as u32, den: tail as u32 },),
                        #[trigger] steps@[k],
                    ),
            decreases tail + 1 - row,
        {
            match range.sample(row as i32) {
                Some(p) => {
                    steps.push(gradient(p));
                },
                None => {
                    steps.push(Shade::black());
                },
            }
            row = row + 1;
        }
        Ramp { base, steps }
    }
}

} // verus!
