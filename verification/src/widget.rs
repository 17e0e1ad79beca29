use vstd::prelude::*;
use crate::dice::{draw_range, draw_ratio, pick};
use crate::sampler::RowRange;
use crate::shade::{Ramp, Shade};
use crate::stream::{next_frame, stepped_all, Raindrop, PERIOD};
use crate::glyphs::{
    all_known, exchanged, glyphs_in, known, lemma_exchange_keeps_glyphs, lemma_known_survives,
    lemma_same_glyph_keeps_glyphs, same_outside,
};
use crate::surface::{
    buffer_area, buffer_cells, buffer_rect, covered, is_sound, lemma_slot_in_range,
    lemma_slot_injective, lies_inside, replace_glyph, set_glyph, set_tint, slot, sound, Area, Face,
};

verus! {

/// The digital rain, drawn on a buffer one tick at a time.
pub struct MatrixWidget {}

/// What the rain keeps between two ticks.
pub struct MatrixWidgetState {
    frame: u16,
    drops: Vec<Raindrop>,
    area: Area,
    tail: u16,
    grad: Ramp,
    chars: Vec<char>,
    rng: rand::rngs::ThreadRng,
}

/// The state of the rain without its random source.
pub struct Rain {
    /// The frame counter.
    pub frame: int,
    /// The streams, one for each column of the area, from left to right.
    pub drops: Seq<Raindrop>,
    /// The area that the streams were made for.
    pub area: Area,
    /// The number of rows behind a head over which its light fades.
    pub tail: int,
    /// The colour that a cell gets when the surface is filled.
    pub base: Shade,
    /// The colour at each distance from the far end of a tail.
    pub steps: Seq<Shade>,
    /// The glyphs that cells are filled from.
    pub glyphs: Seq<char>,
}

impl Rain {
    /// The counter is below `PERIOD`, the tail has rows and a colour for each
    /// of them and for the head, there is a glyph to fill cells from, and each
    /// column of the area has a stream with a valid pace and its head within
    /// reach of the area.
    pub open spec fn wf(self) -> bool {
        &&& 0 <= self.frame < PERIOD
        &&& 0 < self.tail <= u16::MAX
        &&& self.steps.len() == self.tail + 1
        &&& self.glyphs.len() > 0
        &&& self.drops.len() == self.area.width
        &&& forall|i: int|
            0 <= i < self.drops.len() ==> {
                &&& (#[trigger] self.drops[i]).paced()
                &&& self.drops[i].in_reach(self.area.height as int, self.tail)
            }
    }

    /// No head stands on the last row that the machine can count, so that
    /// every stream can take a step. It follows from `wf` for an area with at
    /// least one row.
    pub open spec fn headroom(self) -> bool {
        forall|i: int| 0 <= i < self.drops.len() ==> (#[trigger] self.drops[i]).pos < i32::MAX
    }

    /// The state after one tick: the counter goes on by one and starts again at
    /// `PERIOD`, and every stream goes through the tick.
    pub open spec fn ticked(self) -> Rain {
        Rain {
            frame: next_frame(self.frame),
            drops: stepped_all(
                self.drops,
                next_frame(self.frame),
                self.area.height as int,
                self.tail,
            ),
            ..self
        }
    }

    /// The colour of the cell in column `col` and row `row` of the area, both
    /// counted from its corner.
    pub open spec fn shade_at(self, col: int, row: int) -> Shade {
        glow(self.drops[col], self.tail, self.steps, row)
    }
}

/// The colour that a stream gives to a row: over the `tail` rows that end in
/// its head the colour of `steps` at the row's distance from the far end, and
/// black on every other row.
pub open spec fn glow(drop: Raindrop, tail: int, steps: Seq<Shade>, row: int) -> Shade {
    match (RowRange { start: (drop.pos - tail) as i32, end: drop.pos }).spec_sample(row) {
        Some(p) => steps[p.num as int],
        None => Shade::spec_black(),
    }
}

/// The head has the last colour of the tail, the row `tail` rows behind it the
/// first, and the rows before the head and beyond the tail are black.
pub proof fn lemma_glow_ends(drop: Raindrop, tail: int, steps: Seq<Shade>, row: int)
    requires
        0 <= tail <= u16::MAX,
        drop.pos - tail >= i32::MIN,
    ensures
        glow(drop, tail, steps, drop.pos as int) == steps[tail],
        glow(drop, tail, steps, drop.pos - tail) == steps[0],
        row > drop.pos || row < drop.pos - tail ==> glow(drop, tail, steps, row)
            == Shade::spec_black(),
        drop.pos - tail <= row <= drop.pos ==> glow(drop, tail, steps, row) == steps[row - (drop.pos
            - tail)],
{
}

/// Computes `glow` for a stream whose tail does not reach below the rows that
/// the machine can count.
pub fn glow_of(drop: &Raindrop, tail: u16, steps: &Vec<Shade>, row: u16) -> (shade: Shade)
    requires
        steps@.len() == tail + 1,
        drop.pos - tail >= i32::MIN,
    ensures
        shade == glow(*drop, tail as int, steps@, row as int),
{
    let range = RowRange { start: drop.pos - tail as i32, end: drop.pos };
    match range.sample(row as i32) {
        Some(p) => steps[p.num as usize],
        None => Shade::black(),
    }
}

/// One cell in `FLICKER_ODDS` changes its glyph on a tick although no head
/// stands on it.
pub const FLICKER_ODDS: u32 = 20;

/// Whether the cells of `area` in its first `rows` rows, and in the first
/// `cols` columns of the row after them, have the colour that their stream
/// gives them.
pub open spec fn lit_upto(
    cells: Seq<Face>,
    rect: Area,
    area: Area,
    rain: Rain,
    rows: int,
    cols: int,
) -> bool {
    forall|x: int, y: int|
        area.holds(x, y) && (y - area.y < rows || (y - area.y == rows && x - area.x < cols))
            ==> cells[#[trigger] slot(rect, x, y)].tint == Some(
            rain.shade_at(x - area.x, y - area.y),
        )
}

/// Whether every cell of `area` has the colour that its stream gives it.
pub open spec fn lit(cells: Seq<Face>, rect: Area, area: Area, rain: Rain) -> bool {
    lit_upto(cells, rect, area, rain, area.height as int, 0)
}

/// Whether the cells of `area` in its first `rows` rows, and in the first
/// `cols` columns of the row after them, show a glyph of `glyphs` in the
/// colour `base`.
pub open spec fn filled_upto(
    cells: Seq<Face>,
    rect: Area,
    area: Area,
    glyphs: Seq<char>,
    base: Shade,
    rows: int,
    cols: int,
) -> bool {
    forall|x: int, y: int|
        area.holds(x, y) && (y - area.y < rows || (y - area.y == rows && x - area.x < cols)) ==> {
            &&& cells[#[trigger] slot(rect, x, y)].tint == Some(base)
            &&& known(glyphs, cells[slot(rect, x, y)].glyph)
        }
}

/// Whether every cell of `area` shows a glyph of `glyphs` in the colour `base`.
pub open spec fn filled(
    cells: Seq<Face>,
    rect: Area,
    area: Area,
    glyphs: Seq<char>,
    base: Shade,
) -> bool {
    filled_upto(cells, rect, area, glyphs, base, area.height as int, 0)
}

/// Whether `seed` holds a newly made stream for each column of `area`.
pub open spec fn seeded(seed: Seq<Raindrop>, area: Area, tail: int) -> bool {
    &&& seed.len() == area.width
    &&& forall|i: int| 0 <= i < seed.len() ==> (#[trigger] seed[i]).fresh(area.height as int, tail)
}

/// What a frame for `area` needs of the buffer and of the state: the buffer is
/// sound and holds the area, and where the streams are not made anew and the
/// area has no row to bound them, no head has used up the rows that the machine
/// can count.
pub open spec fn can_draw(rain: Rain, buf: tui::buffer::Buffer, area: Area) -> bool {
    &&& sound(buf)
    &&& area.inside(buffer_area(buf))
    &&& area == rain.area && area.height == 0 ==> rain.headroom()
}

/// What one frame for `area` makes of the state `before` and of the cells
/// `cells` of a buffer that covers `rect`.
///
/// For the area of the frame before, the state goes through one tick and the
/// glyphs of the area only change places. For another area the streams are
/// first made anew, one for each column, and every cell of the area shows a
/// glyph of the alphabet. Either way every cell of the area has the colour that
/// its stream gives it after the tick, and no cell outside the area changes.
pub open spec fn frame_drawn(
    before: Rain,
    cells: Seq<Face>,
    rect: Area,
    area: Area,
    after: Rain,
    shown: Seq<Face>,
) -> bool {
    &&& after.wf()
    &&& area == before.area ==> after == before.ticked()
    &&& area != before.area ==> exists|seed: Seq<Raindrop>|
        seeded(seed, area, before.tail) && after == (Rain {
            drops: seed,
            area: area,
            ..before
        }).ticked()
    &&& same_outside(cells, shown, rect, area)
    &&& lit(shown, rect, area, after)
    &&& area == before.area ==> glyphs_in(shown, rect, area) == glyphs_in(cells, rect, area)
    &&& area != before.area ==> all_known(shown, rect, area, before.glyphs)
}

/// A second frame for the same area never makes the streams anew: whatever the
/// first frame found, after the second the state is that after the first gone
/// through one tick, so every head stands where the step rule puts it.
pub proof fn lemma_second_frame_only_ticks(
    before: Rain,
    cells: Seq<Face>,
    rect: Area,
    area: Area,
    between: Rain,
    shown: Seq<Face>,
    after: Rain,
    reshown: Seq<Face>,
)
    requires
        frame_drawn(before, cells, rect, area, between, shown),
        frame_drawn(between, shown, rect, area, after, reshown),
    ensures
        between.area == area,
        after == between.ticked(),
        after.drops == stepped_all(
            between.drops,
            next_frame(between.frame),
            area.height as int,
            between.tail,
        ),
        glyphs_in(reshown, rect, area) == glyphs_in(shown, rect, area),
{
}

impl View for MatrixWidgetState {
    type V = Rain;

    closed spec fn view(&self) -> Rain {
        Rain {
            frame: self.frame as int,
            drops: self.drops@,
            area: self.area,
            tail: self.tail as int,
            base: self.grad.base,
            steps: self.grad.steps@,
            glyphs: self.chars@,
        }
    }
}

impl MatrixWidgetState {
    /// Makes the state of a rain that has not been drawn yet: no streams, no
    /// area, the counter at zero, and a random source of its own.
    pub fn new(tail: u16, chars: &str, grad: Ramp) -> (state: Self)
        requires
            tail > 0,
            chars@.len() > 0,
            grad.steps@.len() == tail + 1,
        ensures
            state@ == (Rain {
                frame: 0,
                drops: Seq::empty(),
                area: Area { x: 0, y: 0, width: 0, height: 0 },
                tail: tail as int,
                base: grad.base,
                steps: grad.steps@,
                glyphs: chars@,
            }),
            state@.wf(),
    {
        let mut glyphs: Vec<char> = Vec::new();
        for c in it: chars.chars()
            invariant
                it.seq() == chars@,
                glyphs@ == it.seq().take(it.index()),
        {
            glyphs.push(c);
        }
        assert(glyphs@ == chars@);
        Self {
            frame: 0,
            drops: Vec::new(),
            area: Area { x: 0, y: 0, width: 0, height: 0 },
            tail,
            grad,
            chars: glyphs,
            rng: rand::thread_rng(),
        }
    }

    /// The frame counter.
    pub fn frame(&self) -> (frame: u16)
        ensures
            frame == self@.frame,
    {
        self.frame
    }

    /// The streams, one for each column of the area, from left to right.
    pub fn drops(&self) -> (drops: &Vec<Raindrop>)
        ensures
            drops@ == self@.drops,
    {
        &self.drops
    }

    /// The area that the streams were made for.
    pub fn area(&self) -> (area: Area)
        ensures
            area == self@.area,
    {
        self.area
    }

    /// The number of rows behind a head over which its light fades.
    pub fn tail(&self) -> (tail: u16)
        ensures
            tail == self@.tail,
    {
        self.tail
    }

    /// Whether a frame for `area` finds every stream able to take a step.
    pub fn has_headroom_for(&self, area: Area) -> (fine: bool)
        ensures
            fine == (area == self@.area && area.height == 0 ==> self@.headroom()),
    {
        if area != self.area || area.height != 0 {
            return true;
        }
        let n = self.drops.len();
        for i in 0..n
            invariant
                n == self.drops.len(),
                area == self.area,
                area.height == 0,
                forall|k: int| 0 <= k < i ==> (#[trigger] self.drops[k]).pos < i32::MAX,
        {
            if self.drops[i].pos == i32::MAX {
                assert(!(self@.drops[i as int].pos < i32::MAX));
                return false;
            }
        }
        true
    }

    /// One tick of the clock: the counter goes on, and each stream takes a step
    /// if the tick is one of its own.
    pub fn advance(&mut self)
        requires
            old(self)@.wf(),
            old(self)@.headroom(),
        ensures
            final(self)@ == old(self)@.ticked(),
            final(self)@.wf(),
    {
        self.frame = (self.frame + 1) % PERIOD;
        let n = self.drops.len();
        let height = self.area.height;
        let tail = self.tail;
        let frame = self.frame;
        for i in 0..n
            invariant
                n == self.drops.len(),
                n == old(self).drops.len(),
                height == old(self).area.height,
                tail == old(self).tail,
                frame == next_frame(old(self).frame as int),
                self.frame == frame,
                self.area == old(self).area,
                self.tail == old(self).tail,
                self.grad == old(self).grad,
                self.chars == old(self).chars,
                old(self)@.wf(),
                old(self)@.headroom(),
                forall|k: int|
                    0 <= k < i ==> #[trigger] self.drops[k] == old(self).drops[k].stepped(
                        frame as int,
                        height as int,
                        tail as int,
                    ),
                forall|k: int| i <= k < n ==> #[trigger] self.drops[k] == old(self).drops[k],
        {
            let mut drop = self.drops[i];
            drop.advance(frame, height, tail);
            self.drops.set(i, drop);
        }
        proof {
            assert(self@.drops =~= old(self)@.ticked().drops);
            assert forall|k: int| 0 <= k < self@.drops.len() implies {
                &&& (#[trigger] self@.drops[k]).paced()
                &&& self@.drops[k].in_reach(height as int, tail as int)
            } by {
                assert(old(self)@.drops[k].in_reach(height as int, tail as int));
            }
        }
    }
}

/// Exchanges the glyphs of the cells at `(x, y)` and `(rx, ry)`; each keeps its
/// colour. With twice the same cell nothing changes.
pub fn swap_cell_symbols(buf: &mut tui::buffer::Buffer, x: u16, y: u16, rx: u16, ry: u16)
    requires
        sound(*old(buf)),
        buffer_area(*old(buf)).holds(x as int, y as int),
        buffer_area(*old(buf)).holds(rx as int, ry as int),
    ensures
        buffer_area(*final(buf)) == buffer_area(*old(buf)),
        buffer_cells(*final(buf)) == exchanged(
            buffer_cells(*old(buf)),
            slot(buffer_area(*old(buf)), x as int, y as int),
            slot(buffer_area(*old(buf)), rx as int, ry as int),
        ),
{
    if rx != x || ry != y {
        let i0 = buf.index_of(x, y);
        let i1 = buf.index_of(rx, ry);
        proof {
            let rect = buffer_area(*buf);
            lemma_slot_in_range(rect, x as int, y as int);
            lemma_slot_in_range(rect, rx as int, ry as int);
            if i0 == i1 {
                lemma_slot_injective(rect, x as int, y as int, rx as int, ry as int);
            }
        }
        let own = replace_glyph(buf, i0, String::new());
        let other = replace_glyph(buf, i1, own);
        let _ = replace_glyph(buf, i0, other);
    } else {
        proof {
            lemma_slot_in_range(buffer_area(*buf), x as int, y as int);
        }
    }
}

/// Exchanges the glyph of the cell at `(x, y)` with that of a cell of `area`
/// drawn uniformly; the draw may hit the cell itself, and then nothing changes.
/// No glyph is made or lost.
pub fn random_swap_cell_symbol(
    buf: &mut tui::buffer::Buffer,
    x: u16,
    y: u16,
    state: &mut MatrixWidgetState,
    area: Area,
)
    requires
        sound(*old(buf)),
        area.inside(buffer_area(*old(buf))),
        area.holds(x as int, y as int),
    ensures
        final(state)@ == old(state)@,
        buffer_area(*final(buf)) == buffer_area(*old(buf)),
        exists|rx: int, ry: int|
            area.holds(rx, ry) && buffer_cells(*final(buf)) == exchanged(
                buffer_cells(*old(buf)),
                slot(buffer_area(*old(buf)), x as int, y as int),
                #[trigger] slot(buffer_area(*old(buf)), rx, ry),
            ),
{
    let rx: u32 = draw_range(&mut state.rng, area.x as u32, area.x as u32 + area.width as u32);
    let ry: u32 = draw_range(&mut state.rng, area.y as u32, area.y as u32 + area.height as u32);
    swap_cell_symbols(buf, x, y, rx as u16, ry as u16);
}

/// Gives the cell in column `col` and row `row` of the area, both counted from
/// its corner, the glyph `glyph` and the colour `base`. Nothing else changes.
pub fn fill_cell(
    buf: &mut tui::buffer::Buffer,
    area: Area,
    col: u16,
    row: u16,
    glyph: char,
    base: Shade,
)
    requires
        sound(*old(buf)),
        area.inside(buffer_area(*old(buf))),
        col < area.width,
        row < area.height,
    ensures
        buffer_area(*final(buf)) == buffer_area(*old(buf)),
        buffer_cells(*final(buf)) == buffer_cells(*old(buf)).update(
            slot(buffer_area(*old(buf)), area.x + col, area.y + row),
            (Face { glyph: seq![glyph], tint: Some(base) }),
        ),
{
    let x: u16 = (area.x as u32 + col as u32) as u16;
    let y: u16 = (area.y as u32 + row as u32) as u16;
    proof {
        lemma_slot_in_range(buffer_area(*buf), x as int, y as int);
    }
    let i = buf.index_of(x, y);
    set_glyph(buf, i, glyph);
    set_tint(buf, i, base);
    assert(buffer_cells(*buf) =~= buffer_cells(*old(buf)).update(
        i as int,
        (Face { glyph: seq![glyph], tint: Some(base) }),
    ));
}

/// Whether the cell in row `row` of a stream's column changes its glyph on a
/// tick: under the head it always does, elsewhere where the coin `flicker` fell
/// that way.
pub fn changes_glyph(drop: &Raindrop, row: u16, flicker: bool) -> (changes: bool)
    ensures
        changes == (row == drop.pos || flicker),
{
    let is_head = row as i32 == drop.pos;
    is_head || flicker
}

/// Gives the cell in column `col` and row `row` of the area, both counted from
/// its corner, the colour that its stream gives to that row. Nothing else
/// changes.
pub fn tint_cell(
    buf: &mut tui::buffer::Buffer,
    state: &MatrixWidgetState,
    area: Area,
    col: u16,
    row: u16,
)
    requires
        state@.wf(),
        state@.area == area,
        sound(*old(buf)),
        area.inside(buffer_area(*old(buf))),
        col < area.width,
        row < area.height,
    ensures
        buffer_area(*final(buf)) == buffer_area(*old(buf)),
        buffer_cells(*final(buf)) == buffer_cells(*old(buf)).update(
            slot(buffer_area(*old(buf)), area.x + col, area.y + row),
            (Face {
                glyph: buffer_cells(*old(buf))[slot(
                    buffer_area(*old(buf)),
                    area.x + col,
                    area.y + row,
                )].glyph,
                tint: Some(state@.shade_at(col as int, row as int)),
            }),
        ),
{
    let x: u16 = (area.x as u32 + col as u32) as u16;
    let y: u16 = (area.y as u32 + row as u32) as u16;
    proof {
        lemma_slot_in_range(buffer_area(*buf), x as int, y as int);
    }
    let i = buf.index_of(x, y);
    let shade = glow_of(&state.drops[col as usize], state.tail, &state.grad.steps, row);
    set_tint(buf, i, shade);
}

/// Draws one cell of the area: the cell under a head, and now and then any
/// other, exchanges its glyph with a cell drawn at random, and the cell takes
/// the colour that its stream gives to its row.
fn paint_cell(
    buf: &mut tui::buffer::Buffer,
    state: &mut MatrixWidgetState,
    area: Area,
    col: u16,
    row: u16,
)
    requires
        old(state)@.wf(),
        old(state)@.area == area,
        sound(*old(buf)),
        area.inside(buffer_area(*old(buf))),
        col < area.width,
        row < area.height,
    ensures
        final(state)@ == old(state)@,
        buffer_area(*final(buf)) == buffer_area(*old(buf)),
        same_outside(
            buffer_cells(*old(buf)),
            buffer_cells(*final(buf)),
            buffer_area(*old(buf)),
            area,
        ),
        glyphs_in(buffer_cells(*final(buf)), buffer_area(*old(buf)), area) == glyphs_in(
            buffer_cells(*old(buf)),
            buffer_area(*old(buf)),
            area,
        ),
        buffer_cells(*final(buf))[slot(
            buffer_area(*old(buf)),
            area.x + col,
            area.y + row,
        )].tint == Some(old(state)@.shade_at(col as int, row as int)),
        forall|k: int|
            0 <= k < buffer_cells(*old(buf)).len() && k != slot(
                buffer_area(*old(buf)),
                area.x + col,
                area.y + row,
            ) ==> (#[trigger] buffer_cells(*final(buf))[k]).tint == buffer_cells(*old(buf))[k].tint,
{
    let ghost rect = buffer_area(*buf);
    let ghost before = buffer_cells(*buf);
    let x: u16 = (area.x as u32 + col as u32) as u16;
    let y: u16 = (area.y as u32 + row as u32) as u16;
    let ghost here = slot(rect, x as int, y as int);
    proof {
        lemma_slot_in_range(rect, x as int, y as int);
    }
    let flicker = draw_ratio(&mut state.rng, 1, FLICKER_ODDS);
    if changes_glyph(&state.drops[col as usize], row, flicker) {
        random_swap_cell_symbol(buf, x, y, state, area);
        proof {
            let (rx, ry) = choose|rx: int, ry: int|
                area.holds(rx, ry) && buffer_cells(*buf) == exchanged(
                    before,
                    here,
                    #[trigger] slot(rect, rx, ry),
                );
            let there = slot(rect, rx, ry);
            lemma_slot_in_range(rect, rx, ry);
            lemma_exchange_keeps_glyphs(before, rect, area, here, there);
        }
    }
    let ghost swapped = buffer_cells(*buf);
    tint_cell(buf, state, area, col, row);
    proof {
        lemma_same_glyph_keeps_glyphs(
            swapped,
            rect,
            area,
            here,
            Face {
                glyph: swapped[here].glyph,
                tint: Some(state@.shade_at(col as int, row as int)),
            },
        );
    }
}

impl MatrixWidget {
    /// Makes the rain anew for `area`: a new stream for each column, and in
    /// every cell of the area a glyph drawn from the alphabet, in the colour of
    /// the gradient's first stop. No cell outside the area changes.
    pub fn init(&self, area: Area, buf: &mut tui::buffer::Buffer, state: &mut MatrixWidgetState)
        requires
            old(state)@.wf(),
            sound(*old(buf)),
            area.inside(buffer_area(*old(buf))),
        ensures
            final(state)@ == (Rain { drops: final(state)@.drops, area: area, ..old(state)@ }),
            seeded(final(state)@.drops, area, old(state)@.tail),
            final(state)@.wf(),
            buffer_area(*final(buf)) == buffer_area(*old(buf)),
            same_outside(
                buffer_cells(*old(buf)),
                buffer_cells(*final(buf)),
                buffer_area(*old(buf)),
                area,
            ),
            filled(
                buffer_cells(*final(buf)),
                buffer_area(*old(buf)),
                area,
                old(state)@.glyphs,
                old(state)@.base,
            ),
    {
        let ghost rect = buffer_area(*buf);
        let ghost before = buffer_cells(*buf);
        let ghost rain = state@;
        let mut drops: Vec<Raindrop> = Vec::new();
        for col in 0..area.width
            invariant
                state@ == rain,
                rain.wf(),
                drops@.len() == col,
                forall|i: int|
                    0 <= i < drops@.len() ==> (#[trigger] drops@[i]).fresh(
                        area.height as int,
                        rain.tail,
                    ),
        {
            let drop = Raindrop::spawn(&mut state.rng, area.height, state.tail);
            drops.push(drop);
        }
        state.drops = drops;
        let ghost made = state@;
        for row in 0..area.height
            invariant
                state@ == made,
                made.glyphs == rain.glyphs,
                made.base == rain.base,
                rain.wf(),
                buffer_area(*buf) == rect,
                sound(*buf),
                area.inside(rect),
                same_outside(before, buffer_cells(*buf), rect, area),
                filled_upto(buffer_cells(*buf), rect, area, rain.glyphs, rain.base, row as int, 0),
        {
            for col in 0..area.width
                invariant
                    row < area.height,
                    state@ == made,
                    made.glyphs == rain.glyphs,
                    made.base == rain.base,
                    rain.wf(),
                    buffer_area(*buf) == rect,
                    sound(*buf),
                    area.inside(rect),
                    same_outside(before, buffer_cells(*buf), rect, area),
                    filled_upto(
                        buffer_cells(*buf),
                        rect,
                        area,
                        rain.glyphs,
                        rain.base,
                        row as int,
                        col as int,
                    ),
            {
                proof {
                    lemma_slot_in_range(rect, area.x + col, area.y + row);
                }
                match pick(&mut state.rng, &state.chars) {
                    Some(glyph) => {
                        fill_cell(buf, area, col, row, glyph, state.grad.base);
                    },
                    None => {},
                }
                proof {
                    let now = buffer_cells(*buf);
                    assert forall|x2: int, y2: int|
                        area.holds(x2, y2) && (y2 - area.y < row || (y2 - area.y == row && x2
                            - area.x < col + 1)) implies {
                        &&& now[#[trigger] slot(rect, x2, y2)].tint == Some(rain.base)
                        &&& known(rain.glyphs, now[slot(rect, x2, y2)].glyph)
                    } by {
                        lemma_slot_in_range(rect, x2, y2);
                    }
                }
            }
        }
        state.area = area;
    }

    /// One frame of the rain on `buf`. For an area other than that of the
    /// frame before, the rain is first made anew. Then the clock ticks, the
    /// streams take their steps, and the area is drawn.
    pub fn render(self, area: Area, buf: &mut tui::buffer::Buffer, state: &mut MatrixWidgetState)
        requires
            old(state)@.wf(),
            can_draw(old(state)@, *old(buf), area),
        ensures
            buffer_area(*final(buf)) == buffer_area(*old(buf)),
            frame_drawn(
                old(state)@,
                buffer_cells(*old(buf)),
                buffer_area(*old(buf)),
                area,
                final(state)@,
                buffer_cells(*final(buf)),
            ),
    {
        let ghost rect = buffer_area(*buf);
        if state.area != area {
            self.init(area, buf, state);
        }
        let ghost ready = state@;
        let ghost filled = buffer_cells(*buf);
        state.advance();
        self.paint(area, buf, state);
        proof {
            if area != old(state)@.area {
                lemma_known_survives(filled, buffer_cells(*buf), rect, area, ready.glyphs);
            }
        }
    }

    /// One frame of the rain on `buf`, if the frame can be drawn: tells whether
    /// it was, and leaves buffer and state untouched where it was not.
    pub fn try_render(
        self,
        area: Area,
        buf: &mut tui::buffer::Buffer,
        state: &mut MatrixWidgetState,
    ) -> (drawn: bool)
        requires
            old(state)@.wf(),
        ensures
            drawn == can_draw(old(state)@, *old(buf), area),
            buffer_area(*final(buf)) == buffer_area(*old(buf)),
            drawn ==> frame_drawn(
                old(state)@,
                buffer_cells(*old(buf)),
                buffer_area(*old(buf)),
                area,
                final(state)@,
                buffer_cells(*final(buf)),
            ),
            !drawn ==> final(state)@ == old(state)@ && buffer_cells(*final(buf)) == buffer_cells(
                *old(buf),
            ),
    {
        if is_sound(buf) && lies_inside(area, buffer_rect(buf)) && state.has_headroom_for(area) {
            self.render(area, buf, state);
            true
        } else {
            false
        }
    }

    /// Draws the streams as they stand: every cell of the area takes the colour
    /// that its stream gives to its row, and glyphs change places under the
    /// heads and, now and then, elsewhere. The glyphs of the area are the same
    /// after as before, each as often, and no cell outside the area changes.
    pub fn paint(&self, area: Area, buf: &mut tui::buffer::Buffer, state: &mut MatrixWidgetState)
        requires
            old(state)@.wf(),
            old(state)@.area == area,
            sound(*old(buf)),
            area.inside(buffer_area(*old(buf))),
        ensures
            final(state)@ == old(state)@,
            buffer_area(*final(buf)) == buffer_area(*old(buf)),
            same_outside(
                buffer_cells(*old(buf)),
                buffer_cells(*final(buf)),
                buffer_area(*old(buf)),
                area,
            ),
            glyphs_in(buffer_cells(*final(buf)), buffer_area(*old(buf)), area) == glyphs_in(
                buffer_cells(*old(buf)),
                buffer_area(*old(buf)),
                area,
            ),
            lit(buffer_cells(*final(buf)), buffer_area(*old(buf)), area, old(state)@),
    {
        let ghost rect = buffer_area(*buf);
        let ghost before = buffer_cells(*buf);
        let ghost rain = state@;
        for row in 0..area.height
            invariant
                state@ == rain,
                rain.wf(),
                rain.area == area,
                buffer_area(*buf) == rect,
                sound(*buf),
                area.inside(rect),
                same_outside(before, buffer_cells(*buf), rect, area),
                glyphs_in(buffer_cells(*buf), rect, area) == glyphs_in(before, rect, area),
                lit_upto(buffer_cells(*buf), rect, area, rain, row as int, 0),
        {
            for col in 0..area.width
                invariant
                    row < area.height,
                    state@ == rain,
                    rain.wf(),
                    rain.area == area,
                    buffer_area(*buf) == rect,
                    sound(*buf),
                    area.inside(rect),
                    same_outside(before, buffer_cells(*buf), rect, area),
                    glyphs_in(buffer_cells(*buf), rect, area) == glyphs_in(before, rect, area),
                    lit_upto(buffer_cells(*buf), rect, area, rain, row as int, col as int),
            {
                paint_cell(buf, state, area, col, row);
                proof {
                    let now = buffer_cells(*buf);
                    let here = slot(rect, area.x + col, area.y + row);
                    assert forall|x: int, y: int|
                        area.holds(x, y) && (y - area.y < row || (y - area.y == row && x - area.x
                            < col + 1)) implies now[#[trigger] slot(rect, x, y)].tint == Some(
                        rain.shade_at(x - area.x, y - area.y),
                    ) by {
                        lemma_slot_in_range(rect, x, y);
                        if slot(rect, x, y) == here {
                            lemma_slot_injective(rect, x, y, area.x + col, area.y + row);
                        }
                    }
                }
            }
        }
    }
}

} // verus!
