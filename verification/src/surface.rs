use vstd::prelude::*;
use crate::shade::Shade;

verus! {

/// A rectangle of cells on a surface: its top-left corner and its extent.
#[derive(Clone, Copy, Debug, PartialEq, Eq, Structural)]
pub struct Area {
    pub x: u16,
    pub y: u16,
    pub width: u16,
    pub height: u16,
}

impl Area {
    /// Whether the cell in column `x` and row `y` belongs to the rectangle.
    pub open spec fn holds(self, x: int, y: int) -> bool {
        &&& self.x <= x < self.x + self.width
        &&& self.y <= y < self.y + self.height
    }

    /// Whether the rectangle ends within the columns and rows that 16 bits can
    /// count, as the buffer's own arithmetic expects.
    pub open spec fn bounded(self) -> bool {
        &&& self.x + self.width <= u16::MAX
        &&& self.y + self.height <= u16::MAX
    }

    /// Whether every cell of this rectangle is a cell of `outer`. A rectangle
    /// without cells lies inside any other.
    pub open spec fn inside(self, outer: Area) -> bool {
        ||| self.width == 0
        ||| self.height == 0
        ||| {
            &&& outer.x <= self.x
            &&& self.x + self.width <= outer.x + outer.width
            &&& outer.y <= self.y
            &&& self.y + self.height <= outer.y + outer.height
        }
    }
}

/// What the engine reads and writes of one cell: the glyph it shows and, where
/// its foreground is a 24-bit colour, that colour.
pub struct Face {
    pub glyph: Seq<char>,
    pub tint: Option<Shade>,
}

/// `tui::buffer::Buffer`, taken as it is: what it holds is known only through
/// `buffer_area` and `buffer_cells`.
#[verifier::external_type_specification]
#[verifier::external_body]
pub struct ExBuffer(tui::buffer::Buffer);

/// The rectangle that a buffer covers: its field `area`.
pub uninterp spec fn buffer_area(buf: tui::buffer::Buffer) -> Area;

/// The cells of a buffer in the order of its field `content`: of each the
/// symbol and, where the foreground is `Color::Rgb`, its three bytes.
pub uninterp spec fn buffer_cells(buf: tui::buffer::Buffer) -> Seq<Face>;

/// The place in a buffer's cells of the cell in column `x` and row `y`, for a
/// buffer that covers `rect`: rows follow one another, each from left to right.
pub open spec fn slot(rect: Area, x: int, y: int) -> int {
    (y - rect.y) * rect.width + (x - rect.x)
}

/// What the engine needs of a buffer to draw on it: its rectangle is bounded,
/// the number of the rectangle's places fits the 16 bits in which the buffer
/// computes them, and the buffer has one cell for each place.
pub open spec fn sound(buf: tui::buffer::Buffer) -> bool {
    let rect = buffer_area(buf);
    &&& rect.bounded()
    &&& rect.width * rect.height <= u16::MAX
    &&& buffer_cells(buf).len() == rect.width * rect.height
}

/// Whether place `i` of a buffer that covers `rect` is the place of a cell of
/// `area`.
pub open spec fn covered(rect: Area, area: Area, i: int) -> bool {
    exists|x: int, y: int| area.holds(x, y) && i == #[trigger] slot(rect, x, y)
}

/// `Buffer::index_of`: the place of the cell at `(x, y)`. The buffer computes
/// it in 16 bits, and in a debug build refuses coordinates outside its
/// rectangle, whose far corner it computes in 16 bits too. So the rectangle
/// must be bounded, its cell count must fit 16 bits, and the cell must lie in it.
pub assume_specification[ tui::buffer::Buffer::index_of ](
    buf: &tui::buffer::Buffer,
    x: u16,
    y: u16,
) -> (i: usize)
    requires
        buffer_area(*buf).bounded(),
        buffer_area(*buf).width * buffer_area(*buf).height <= u16::MAX,
        buffer_area(*buf).holds(x as int, y as int),
    ensures
        i == slot(buffer_area(*buf), x as int, y as int),
;

/// `Cell::set_fg` on the cell at place `i` of `content`, with `Color::Rgb` of
/// the bytes of `shade`. Indexing panics past the end, so `i` must be a place
/// of the buffer. Only that cell's colour changes.
#[verifier::external_body]
pub(crate) fn set_tint(buf: &mut tui::buffer::Buffer, i: usize, shade: Shade)
    requires
        i < buffer_cells(*old(buf)).len(),
    ensures
        buffer_area(*final(buf)) == buffer_area(*old(buf)),
        buffer_cells(*final(buf)) == buffer_cells(*old(buf)).update(
            i as int,
            (Face { glyph: buffer_cells(*old(buf))[i as int].glyph, tint: Some(shade) }),
        ),
{
    buf.content[i].set_fg(tui::style::Color::Rgb(shade.r, shade.g, shade.b));
}

/// `Cell::set_char` on the cell at place `i` of `content`: its symbol becomes
/// the one character `glyph`. Indexing panics past the end, so `i` must be a
/// place of the buffer. Only that cell's symbol changes.
#[verifier::external_body]
pub(crate) fn set_glyph(buf: &mut tui::buffer::Buffer, i: usize, glyph: char)
    requires
        i < buffer_cells(*old(buf)).len(),
    ensures
        buffer_area(*final(buf)) == buffer_area(*old(buf)),
        buffer_cells(*final(buf)) == buffer_cells(*old(buf)).update(
            i as int,
            (Face { glyph: seq![glyph], tint: buffer_cells(*old(buf))[i as int].tint }),
        ),
{
    buf.content[i].set_char(glyph);
}

/// `std::mem::replace` on the field `symbol` of the cell at place `i` of
/// `content`: the cell takes `glyph` and hands back the symbol it had.
/// Indexing panics past the end, so `i` must be a place of the buffer. Only
/// that cell's symbol changes.
#[verifier::external_body]
pub(crate) fn replace_glyph(
    buf: &mut tui::buffer::Buffer,
    i: usize,
    glyph: String,
) -> (prev: String)
    requires
        i < buffer_cells(*old(buf)).len(),
    ensures
        prev@ == buffer_cells(*old(buf))[i as int].glyph,
        buffer_area(*final(buf)) == buffer_area(*old(buf)),
        buffer_cells(*final(buf)) == buffer_cells(*old(buf)).update(
            i as int,
            (Face { glyph: glyph@, tint: buffer_cells(*old(buf))[i as int].tint }),
        ),
{
    std::mem::replace(&mut buf.content[i].symbol, glyph)
}

/// The field `area` of a buffer, field by field: the rectangle that the buffer
/// covers.
#[verifier::external_body]
pub(crate) fn buffer_rect(buf: &tui::buffer::Buffer) -> (rect: Area)
    ensures
        rect == buffer_area(*buf),
{
    Area { x: buf.area.x, y: buf.area.y, width: buf.area.width, height: buf.area.height }
}

/// `Buffer::content`, and of the slice its length: the number of cells that
/// the buffer has.
#[verifier::external_body]
pub(crate) fn buffer_len(buf: &tui::buffer::Buffer) -> (n: usize)
    ensures
        n == buffer_cells(*buf).len(),
{
    buf.content().len()
}

/// The place of a cell of the rectangle lies among the rectangle's places.
pub proof fn lemma_slot_in_range(rect: Area, x: int, y: int)
    requires
        rect.holds(x, y),
    ensures
        0 <= slot(rect, x, y) < rect.width * rect.height,
{
    let w = rect.width as int;
    let h = rect.height as int;
    let dy = y - rect.y;
    assert(0 <= dy * w && dy * w + w <= h * w) by (nonlinear_arith)
        requires
            0 <= dy < h,
            0 <= w,
    ;
}

/// Two cells of the rectangle with the same place are the same cell.
pub proof fn lemma_slot_injective(rect: Area, x1: int, y1: int, x2: int, y2: int)
    requires
        rect.holds(x1, y1),
        rect.holds(x2, y2),
        slot(rect, x1, y1) == slot(rect, x2, y2),
    ensures
        x1 == x2,
        y1 == y2,
{
    let w = rect.width as int;
    let a = y1 - rect.y;
    let b = y2 - rect.y;
    let p = x1 - rect.x;
    let q = x2 - rect.x;
    assert(a == b) by (nonlinear_arith)
        requires
            a * w + p == b * w + q,
            0 <= p < w,
            0 <= q < w,
    ;
}

/// Whether the buffer is sound.
pub fn is_sound(buf: &tui::buffer::Buffer) -> (fine: bool)
    ensures
        fine == sound(*buf),
{
    let rect = buffer_rect(buf);
    assert(rect.width * rect.height <= u16::MAX * u16::MAX) by (nonlinear_arith)
        requires
            0 <= rect.width <= u16::MAX,
            0 <= rect.height <= u16::MAX,
    ;
    let places: u32 = rect.width as u32 * rect.height as u32;
    rect.x as u32 + rect.width as u32 <= u16::MAX as u32 && rect.y as u32 + rect.height as u32
        <= u16::MAX as u32 && places <= u16::MAX as u32 && buffer_len(buf) == places as usize
}

/// Whether every cell of `area` is a cell of `outer`.
pub fn lies_inside(area: Area, outer: Area) -> (fine: bool)
    ensures
        fine == area.inside(outer),
{
    area.width == 0 || area.height == 0 || (outer.x <= area.x && area.x as u32 + area.width as u32
        <= outer.x as u32 + outer.width as u32 && outer.y <= area.y && area.y as u32
        + area.height as u32 <= outer.y as u32 + outer.height as u32)
}

} // verus!
