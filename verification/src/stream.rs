use vstd::prelude::*;
use crate::dice::draw_range;

verus! {

/// The slowest pace of a stream: one step every `MAX_SPEED` ticks. Paces run
/// from 1 (a step on every tick) to this.
pub const MAX_SPEED: u16 = 3;

/// The number of ticks after which the frame counter starts again: the least
/// common multiple of the paces `1..=MAX_SPEED`.
pub const PERIOD: u16 = 6;

/// One falling stream: the row of its head, counted from the top of the area
/// and negative while the head is still above it, and its pace.
#[derive(Clone, Copy, Debug, PartialEq, Eq, Structural)]
pub struct Raindrop {
    pub pos: i32,
    pub speed: u16,
}

/// The frame counter after one more tick.
pub open spec fn next_frame(frame: int) -> int {
    (frame + 1) % (PERIOD as int)
}

impl Raindrop {
    /// The pace is one of `1..=MAX_SPEED`.
    pub open spec fn paced(self) -> bool {
        1 <= self.speed <= MAX_SPEED
    }

    /// A stream as it is made: a valid pace, and the head on the top row or
    /// less than `height + tail` rows above it.
    pub open spec fn fresh(self, height: int, tail: int) -> bool {
        &&& self.paced()
        &&& -(height + tail) < self.pos <= 0
    }

    /// The head is less than `height + tail` rows above the top, and, where the
    /// area has rows at all, at most `height + tail` rows below it.
    pub open spec fn in_reach(self, height: int, tail: int) -> bool {
        &&& -(height + tail) < self.pos
        &&& height > 0 ==> self.pos <= height + tail
    }

    /// Whether the stream takes a step on the tick that brings the counter to
    /// `frame`.
    pub open spec fn moves_on(self, frame: int) -> bool {
        frame % (self.speed as int) == 0
    }

    /// The stream after the tick that brings the counter to `frame`: on its own
    /// ticks the head goes down one row, and a head that has thereby passed row
    /// `height + tail` is set back by twice the height.
    pub open spec fn stepped(self, frame: int, height: int, tail: int) -> Raindrop {
        if self.moves_on(frame) {
            if self.pos + 1 > height + tail {
                Raindrop { pos: (self.pos + 1 - 2 * height) as i32, speed: self.speed }
            } else {
                Raindrop { pos: (self.pos + 1) as i32, speed: self.speed }
            }
        } else {
            self
        }
    }

    /// The stream whose head stands `above` rows above the top row and which
    /// takes a step every `pace` ticks.
    pub fn starting(above: u32, pace: u16) -> (drop: Raindrop)
        requires
            above <= i32::MAX,
        ensures
            drop == (Raindrop { pos: (-above) as i32, speed: pace }),
    {
        Raindrop { pos: -(above as i32), speed: pace }
    }

    /// Makes a stream for an area of `height` rows: the head is drawn uniformly
    /// from the `height + tail` rows that end at the top row, the pace from
    /// `1..=MAX_SPEED`.
    pub fn spawn(rng: &mut rand::rngs::ThreadRng, height: u16, tail: u16) -> (drop: Raindrop)
        requires
            tail > 0,
        ensures
            drop.fresh(height as int, tail as int),
    {
        let above: u32 = draw_range(rng, 0, height as u32 + tail as u32);
        let pace: u32 = draw_range(rng, 1, MAX_SPEED as u32 + 1);
        Raindrop::starting(above, pace as u16)
    }

    /// Moves the stream through the tick that brings the counter to `frame`.
    pub fn advance(&mut self, frame: u16, height: u16, tail: u16)
        requires
            old(self).speed > 0,
            old(self).pos < i32::MAX,
        ensures
            *final(self) == old(self).stepped(frame as int, height as int, tail as int),
    {
        if frame % self.speed == 0 {
            self.pos = self.pos + 1;
            if self.pos > height as i32 + tail as i32 {
                self.pos = self.pos - 2 * (height as i32);
            }
        }
    }
}

/// Every stream of `drops` after the tick that brings the counter to `frame`.
pub open spec fn stepped_all(drops: Seq<Raindrop>, frame: int, height: int, tail: int) -> Seq<
    Raindrop,
> {
    Seq::new(drops.len(), |i: int| drops[i].stepped(frame, height, tail))
}

/// A step keeps a stream within reach: from a head within reach of an area
/// with at least one row, the head after the tick is again at most
/// `height + tail`, and a head that was set back stands exactly `2 * height`
/// rows above the row it had passed to.
pub proof fn lemma_step_stays_in_reach(drop: Raindrop, frame: int, height: int, tail: int)
    requires
        drop.paced(),
        0 < height <= u16::MAX,
        0 < tail <= u16::MAX,
        drop.in_reach(height, tail),
    ensures
        drop.stepped(frame, height, tail).paced(),
        drop.stepped(frame, height, tail).in_reach(height, tail),
        drop.moves_on(frame) && drop.pos + 1 > height + tail ==> drop.stepped(
            frame,
            height,
            tail,
        ).pos == drop.pos + 1 - 2 * height,
        drop.moves_on(frame) && drop.pos + 1 <= height + tail ==> drop.stepped(
            frame,
            height,
            tail,
        ).pos == drop.pos + 1,
        !drop.moves_on(frame) ==> drop.stepped(frame, height, tail) == drop,
{
}

/// How many of the next `ticks` ticks after the counter stood at `frame` are
/// ticks on which a stream of pace `speed` takes a step.
pub open spec fn own_ticks(speed: int, frame: int, ticks: nat) -> int
    decreases ticks,
{
    if ticks == 0 {
        0
    } else {
        let next = next_frame(frame);
        (if next % speed == 0 {
            1int
        } else {
            0int
        }) + own_ticks(speed, next, (ticks - 1) as nat)
    }
}

/// The stream after the next `ticks` ticks, the counter standing at `frame`
/// before the first of them.
pub open spec fn run(drop: Raindrop, frame: int, height: int, tail: int, ticks: nat) -> Raindrop
    decreases ticks,
{
    if ticks == 0 {
        drop
    } else {
        let next = next_frame(frame);
        run(drop.stepped(next, height, tail), next, height, tail, (ticks - 1) as nat)
    }
}

/// In every `PERIOD` ticks in a row, wherever the counter stands before them, a
/// stream takes as many steps as its pace goes into `PERIOD`.
pub proof fn lemma_steps_in_a_period(speed: int, frame: int)
    requires
        1 <= speed <= MAX_SPEED,
        0 <= frame < PERIOD,
    ensures
        own_ticks(speed, frame, PERIOD as nat) == (PERIOD as int) / speed,
{
    reveal_with_fuel(own_ticks, 7);
    assert(next_frame(0) == 1 && next_frame(1) == 2 && next_frame(2) == 3 && next_frame(3) == 4
        && next_frame(4) == 5 && next_frame(5) == 0);
    assert(0int % 2 == 0 && 1int % 2 == 1 && 2int % 2 == 0 && 3int % 2 == 1 && 4int % 2 == 0 && 5int
        % 2 == 1);
    assert(0int % 3 == 0 && 1int % 3 == 1 && 2int % 3 == 2 && 3int % 3 == 0 && 4int % 3 == 1 && 5int
        % 3 == 2);
    assert(6int / 1 == 6 && 6int / 2 == 3 && 6int / 3 == 2);
}

/// A stream that is not set back comes down by one row for each of its own
/// ticks: after `ticks` ticks that do not carry the head past row
/// `height + tail`, the head stands that many rows further down.
pub proof fn lemma_run_without_set_back(
    drop: Raindrop,
    frame: int,
    height: int,
    tail: int,
    ticks: nat,
)
    requires
        drop.speed > 0,
        i32::MIN <= drop.pos,
        drop.pos + own_ticks(drop.speed as int, frame, ticks) <= height + tail,
        height + tail < i32::MAX,
    ensures
        run(drop, frame, height, tail, ticks) == (Raindrop {
            pos: (drop.pos + own_ticks(drop.speed as int, frame, ticks)) as i32,
            speed: drop.speed,
        }),
    decreases ticks,
{
    if ticks > 0 {
        let next = next_frame(frame);
        lemma_own_ticks_counts(drop.speed as int, next, (ticks - 1) as nat);
        lemma_run_without_set_back(
            drop.stepped(next, height, tail),
            next,
            height,
            tail,
            (ticks - 1) as nat,
        );
    }
}

/// Own ticks are counted: there are none below zero.
pub proof fn lemma_own_ticks_counts(speed: int, frame: int, ticks: nat)
    ensures
        0 <= own_ticks(speed, frame, ticks) <= ticks,
    decreases ticks,
{
    if ticks > 0 {
        lemma_own_ticks_counts(speed, next_frame(frame), (ticks - 1) as nat);
    }
}

/// Whether every pace divides `n`.
pub open spec fn common_multiple(n: int) -> bool {
    forall|s: int| 1 <= s <= MAX_SPEED ==> #[trigger] (n % s) == 0
}

/// `PERIOD` is the least common multiple of the paces: every pace divides it,
/// and no smaller positive number is divided by all of them.
pub proof fn lemma_period_is_least_common_multiple()
    ensures
        common_multiple(PERIOD as int),
        forall|n: int| 0 < n < PERIOD ==> !#[trigger] common_multiple(n),
{
    assert(6int % 1 == 0 && 6int % 2 == 0 && 6int % 3 == 0);
    assert forall|n: int| 0 < n < PERIOD implies !#[trigger] common_multiple(n) by {
        if n == 1 || n == 3 || n == 5 {
            assert(n % 2 != 0);
        } else {
            assert(n % 3 != 0);
        }
    }
}

} // verus!
