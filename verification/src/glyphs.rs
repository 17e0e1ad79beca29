use vstd::prelude::*;
use vstd::multiset::Multiset;
use crate::surface::{covered, lemma_slot_in_range, slot, Area, Face};

verus! {

/// The cells after the cells at places `i` and `j` have exchanged their glyphs;
/// each keeps its colour. With `i == j` nothing changes.
pub open spec fn exchanged(cells: Seq<Face>, i: int, j: int) -> Seq<Face> {
    cells.update(i, (Face { glyph: cells[j].glyph, tint: cells[i].tint })).update(
        j,
        (Face { glyph: cells[i].glyph, tint: cells[j].tint }),
    )
}

/// Whether `after` has a cell for each cell of `before` and shows every cell
/// that does not belong to `area` as `before` does.
pub open spec fn same_outside(before: Seq<Face>, after: Seq<Face>, rect: Area, area: Area) -> bool {
    &&& after.len() == before.len()
    &&& forall|i: int|
        0 <= i < before.len() && !covered(rect, area, i) ==> #[trigger] after[i] == before[i]
}

/// The glyphs shown by the cells of `area` among the first `n` places of a
/// buffer that covers `rect`, each as often as it is shown.
pub open spec fn glyphs_upto(cells: Seq<Face>, rect: Area, area: Area, n: nat) -> Multiset<
    Seq<char>,
>
    decreases n,
{
    if n == 0 {
        Multiset::empty()
    } else {
        let rest = glyphs_upto(cells, rect, area, (n - 1) as nat);
        if covered(rect, area, n - 1) {
            rest.insert(cells[n - 1].glyph)
        } else {
            rest
        }
    }
}

/// The glyphs shown by the cells of `area` in a buffer that covers `rect`, each
/// as often as it is shown.
pub open spec fn glyphs_in(cells: Seq<Face>, rect: Area, area: Area) -> Multiset<Seq<char>> {
    glyphs_upto(cells, rect, area, cells.len())
}

/// How often the one glyph `g` is counted for a cell that shows `shown`.
pub open spec fn tally(shown: Seq<char>, g: Seq<char>) -> int {
    if shown == g {
        1
    } else {
        0
    }
}

/// Rewriting one cell changes the count of a glyph by what that cell showed and
/// shows, and only if the cell belongs to the area.
pub proof fn lemma_count_after_update(
    cells: Seq<Face>,
    rect: Area,
    area: Area,
    n: nat,
    i: int,
    face: Face,
    g: Seq<char>,
)
    requires
        0 <= i < cells.len(),
        n <= cells.len(),
    ensures
        glyphs_upto(cells.update(i, face), rect, area, n).count(g) == glyphs_upto(
            cells,
            rect,
            area,
            n,
        ).count(g) + (if i < n && covered(rect, area, i) {
            tally(face.glyph, g) - tally(cells[i].glyph, g)
        } else {
            0
        }),
    decreases n,
{
    broadcast use vstd::multiset::group_multiset_axioms;

    if n > 0 {
        lemma_count_after_update(cells, rect, area, (n - 1) as nat, i, face, g);
    }
}

/// Exchanging the glyphs of two cells of the area leaves the area's glyphs as
/// they were: each is still shown as often as before.
pub proof fn lemma_exchange_keeps_glyphs(cells: Seq<Face>, rect: Area, area: Area, i: int, j: int)
    requires
        0 <= i < cells.len(),
        0 <= j < cells.len(),
        covered(rect, area, i),
        covered(rect, area, j),
    ensures
        glyphs_in(exchanged(cells, i, j), rect, area) == glyphs_in(cells, rect, area),
{
    broadcast use vstd::multiset::group_multiset_axioms;

    let first = Face { glyph: cells[j].glyph, tint: cells[i].tint };
    let mid = cells.update(i, first);
    let second = Face { glyph: cells[i].glyph, tint: mid[j].tint };
    let after = exchanged(cells, i, j);
    assert forall|g: Seq<char>|
        glyphs_in(after, rect, area).count(g) == glyphs_in(cells, rect, area).count(g) by {
        lemma_count_after_update(cells, rect, area, cells.len(), i, first, g);
        lemma_count_after_update(mid, rect, area, cells.len(), j, second, g);
    }
}

/// Rewriting a cell without touching its glyph leaves the area's glyphs as they
/// were.
pub proof fn lemma_same_glyph_keeps_glyphs(
    cells: Seq<Face>,
    rect: Area,
    area: Area,
    i: int,
    face: Face,
)
    requires
        0 <= i < cells.len(),
        face.glyph == cells[i].glyph,
    ensures
        glyphs_in(cells.update(i, face), rect, area) == glyphs_in(cells, rect, area),
{
    broadcast use vstd::multiset::group_multiset_axioms;

    let after = cells.update(i, face);
    assert forall|g: Seq<char>|
        glyphs_in(after, rect, area).count(g) == glyphs_in(cells, rect, area).count(g) by {
        lemma_count_after_update(cells, rect, area, cells.len(), i, face, g);
    }
}

/// The glyph of a cell of the area is among the area's glyphs.
pub proof fn lemma_shown_is_counted(cells: Seq<Face>, rect: Area, area: Area, n: nat, i: int)
    requires
        0 <= i < n <= cells.len(),
        covered(rect, area, i),
    ensures
        glyphs_upto(cells, rect, area, n).count(cells[i].glyph) > 0,
    decreases n,
{
    broadcast use vstd::multiset::group_multiset_axioms;

    if i < n - 1 {
        lemma_shown_is_counted(cells, rect, area, (n - 1) as nat, i);
    }
}

/// A glyph among the area's glyphs is the glyph of a cell of the area.
pub proof fn lemma_counted_is_shown(cells: Seq<Face>, rect: Area, area: Area, n: nat, g: Seq<char>)
    requires
        n <= cells.len(),
        glyphs_upto(cells, rect, area, n).count(g) > 0,
    ensures
        exists|i: int| 0 <= i < n && covered(rect, area, i) && (#[trigger] cells[i]).glyph == g,
    decreases n,
{
    broadcast use vstd::multiset::group_multiset_axioms;

    if n > 0 {
        if covered(rect, area, n - 1) && cells[n - 1].glyph == g {
        } else {
            lemma_counted_is_shown(cells, rect, area, (n - 1) as nat, g);
        }
    }
}

/// Whether a cell that shows `shown` shows exactly one glyph, and one of
/// `glyphs`.
pub open spec fn known(glyphs: Seq<char>, shown: Seq<char>) -> bool {
    shown.len() == 1 && glyphs.contains(shown[0])
}

/// Whether every cell of `area` shows a glyph of `glyphs`.
pub open spec fn all_known(cells: Seq<Face>, rect: Area, area: Area, glyphs: Seq<char>) -> bool {
    forall|x: int, y: int|
        area.holds(x, y) ==> known(glyphs, cells[#[trigger] slot(rect, x, y)].glyph)
}

/// Where all cells of the area showed glyphs of `glyphs`, and the area's
/// glyphs are the same after as before, all its cells still show such glyphs.
pub proof fn lemma_known_survives(
    before: Seq<Face>,
    after: Seq<Face>,
    rect: Area,
    area: Area,
    glyphs: Seq<char>,
)
    requires
        area.inside(rect),
        before.len() == rect.width * rect.height,
        after.len() == before.len(),
        glyphs_in(after, rect, area) == glyphs_in(before, rect, area),
        all_known(before, rect, area, glyphs),
    ensures
        all_known(after, rect, area, glyphs),
{
    assert forall|x: int, y: int| area.holds(x, y) implies known(
        glyphs,
        after[#[trigger] slot(rect, x, y)].glyph,
    ) by {
        let i = slot(rect, x, y);
        lemma_slot_in_range(rect, x, y);
        let g = after[i].glyph;
        lemma_shown_is_counted(after, rect, area, after.len(), i);
        lemma_counted_is_shown(before, rect, area, before.len(), g);
        let j = choose|j: int|
            0 <= j < before.len() && covered(rect, area, j) && (#[trigger] before[j]).glyph == g;
        let (x2, y2) = choose|x2: int, y2: int|
            area.holds(x2, y2) && j == #[trigger] slot(rect, x2, y2);
    }
}

} // verus!
