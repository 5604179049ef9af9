//! Falling drops and their rendered trails.
//!
//! A [`Droplet`] is one falling column, tracked by its head position. Each
//! tick moves the head one row down; a head that has fallen past the wrap
//! window is recycled to the top in a fresh random column. A drop's trail is
//! not stored: every frame it is recomputed from the head position as up to
//! [`TRAIL_LEN`](crate::TRAIL_LEN) glyphs, spaced two rows apart, each dyed
//! with the palette shade of its offset.

use crate::palette::SHADE_COUNT;
use crate::rng::coin;
use crate::TRAIL_LEN;
use vstd::prelude::*;

verus! {

/// One falling column: the position of its head glyph.
#[derive(Clone, Copy, PartialEq, Eq, Structural, Debug)]
pub struct Droplet {
    /// Column index; kept below the terminal width.
    pub x: u16,
    /// Row index of the head; may run past the bottom edge by the length of
    /// the wrap window before the drop is recycled.
    pub y: u16,
}

/// One glyph to draw: a character at a cell, dyed with a palette shade.
#[derive(Clone, Copy, PartialEq, Eq, Structural, Debug)]
pub struct Cell {
    /// Column to draw at.
    pub x: u16,
    /// Row to draw at.
    pub y: u16,
    /// The character, always `'0'` or `'1'`.
    pub glyph: char,
    /// Palette shade index, equal to the trail offset that produced the cell.
    pub shade: u8,
}

/// Greatest head row a drop may reach before the next tick recycles it.
pub open spec fn wrap_limit(h: int) -> int {
    h + 2 * (TRAIL_LEN as int)
}

/// A drop lies within the grid: its column is inside the width and its head
/// has not run past the wrap window by more than the one row a tick adds.
pub open spec fn drop_in_bounds(d: Droplet, w: int, h: int) -> bool {
    d.x < w && d.y <= wrap_limit(h) + 1
}

/// How one tick moves a single drop. A head past the wrap limit is recycled:
/// it restarts at the top (row 0, then the tick's increment puts it at 1) in
/// some column inside the width. Any other head keeps its column and falls
/// one row.
pub open spec fn drop_step(pre: Droplet, post: Droplet, w: int, h: int) -> bool {
    if pre.y > wrap_limit(h) {
        post.y == 1 && post.x < w
    } else {
        post.y == pre.y + 1 && post.x == pre.x
    }
}

/// Whether trail offset `k` of drop `d` is drawn: the offset's row sits two
/// rows up per step, and is skipped where that row would be negative or
/// below the bottom row `h`.
pub open spec fn offset_visible(d: Droplet, k: int, h: int) -> bool {
    0 <= k < TRAIL_LEN as int && d.y - 2 * k >= 0 && d.y - 2 * k <= h
}

/// The deterministic part of a cell: where it is drawn and with which shade.
/// Only the glyph character is left out, since it is drawn by a coin flip.
pub open spec fn cell_key(c: Cell) -> (int, int, int) {
    (c.x as int, c.y as int, c.shade as int)
}

/// The keys of a sequence of cells, in order.
pub open spec fn keys_of(s: Seq<Cell>) -> Seq<(int, int, int)>
    decreases s.len(),
{
    if s.len() == 0 {
        Seq::empty()
    } else {
        keys_of(s.drop_last()).push(cell_key(s.last()))
    }
}

/// Keys of the cells that trail offsets `0 .. k` of drop `d` produce, in
/// offset order: one cell per visible offset, at the offset's row, with the
/// offset itself as shade.
pub open spec fn trail_keys_upto(d: Droplet, h: int, k: int) -> Seq<(int, int, int)>
    decreases k,
{
    if k <= 0 {
        Seq::empty()
    } else if offset_visible(d, k - 1, h) {
        trail_keys_upto(d, h, k - 1).push((d.x as int, d.y - 2 * (k - 1), k - 1))
    } else {
        trail_keys_upto(d, h, k - 1)
    }
}

/// Keys of the full trail of drop `d` on a grid of height `h`.
pub open spec fn trail_keys(d: Droplet, h: int) -> Seq<(int, int, int)> {
    trail_keys_upto(d, h, TRAIL_LEN as int)
}

/// Keys of the cells that a whole frame draws: the trails of the given
/// drops, one after the other, in drop order.
pub open spec fn all_trail_keys(ds: Seq<Droplet>, h: int) -> Seq<(int, int, int)>
    decreases ds.len(),
{
    if ds.len() == 0 {
        Seq::empty()
    } else {
        all_trail_keys(ds.drop_last(), h) + trail_keys(ds.last(), h)
    }
}

/// A glyph is one of the two binary characters.
pub open spec fn is_glyph(c: char) -> bool {
    c == '1' || c == '0'
}

/// Every cell of a sequence carries a binary glyph.
pub open spec fn all_glyphs(s: Seq<Cell>) -> bool {
    forall|i: int| 0 <= i < s.len() ==> is_glyph((#[trigger] s[i]).glyph)
}

/// Draw the trail of drop `d` on a grid of height `h`: one cell per visible
/// offset, in offset order, each glyph drawn fresh by a coin flip.
pub fn trail_cells(d: Droplet, h: u16, rng: &mut rand::rngs::ThreadRng) -> (cells: Vec<Cell>)
    ensures
        keys_of(cells@) == trail_keys(d, h as int),
        all_glyphs(cells@),
{
    let mut cells: Vec<Cell> = Vec::new();
    let mut k: u16 = 0;
    while k < TRAIL_LEN
        invariant
            k <= TRAIL_LEN,
            keys_of(cells@) == trail_keys_upto(d, h as int, k as int),
            all_glyphs(cells@),
        decreases TRAIL_LEN - k,
    {
        if 2 * k <= d.y {
            let row = d.y - 2 * k;
            if row <= h {
                let g: char = if coin(rng) { '1' } else { '0' };
                let c = Cell { x: d.x, y: row, glyph: g, shade: k as u8 };
                let ghost before = cells@;
                cells.push(c);
                proof {
                    assert(cells@.drop_last() =~= before);
                    assert(keys_of(cells@) == trail_keys_upto(d, h as int, k as int + 1));
                }
            }
        }
        k = k + 1;
    }
    cells
}

/// One tick's step keeps a drop inside the grid bounds.
pub proof fn lemma_step_in_bounds(pre: Droplet, post: Droplet, w: int, h: int)
    requires
        0 <= h,
        drop_in_bounds(pre, w, h),
        drop_step(pre, post, w, h),
    ensures
        drop_in_bounds(post, w, h),
{
}

/// Reset wraparound: a drop whose head sits one row past the wrap limit is
/// recycled by the next tick, landing on row 1 (the top row plus the tick's
/// increment) in some column inside the width.
pub proof fn lemma_reset_wraparound(pre: Droplet, post: Droplet, w: int, h: int)
    requires
        0 <= h,
        pre.y == h + 2 * (TRAIL_LEN as int) + 1,
        drop_step(pre, post, w, h),
    ensures
        post.y == 1,
        0 <= post.x < w,
{
}

/// Cell keys distribute over concatenation.
pub proof fn lemma_keys_of_add(a: Seq<Cell>, b: Seq<Cell>)
    ensures
        keys_of(a + b) == keys_of(a) + keys_of(b),
    decreases b.len(),
{
    if b.len() == 0 {
        assert(a + b =~= a);
        assert(keys_of(a) + keys_of(b) =~= keys_of(a));
    } else {
        lemma_keys_of_add(a, b.drop_last());
        assert((a + b).drop_last() =~= a + b.drop_last());
        assert((a + b).last() == b.last());
        assert((keys_of(a) + keys_of(b.drop_last())).push(cell_key(b.last())) =~= keys_of(a)
            + keys_of(b));
    }
}

/// Binary glyphs are kept under concatenation.
pub proof fn lemma_all_glyphs_add(a: Seq<Cell>, b: Seq<Cell>)
    requires
        all_glyphs(a),
        all_glyphs(b),
    ensures
        all_glyphs(a + b),
{
    assert forall|i: int| 0 <= i < (a + b).len() implies is_glyph((#[trigger] (a + b)[i]).glyph) by {
        if i < a.len() {
            assert((a + b)[i] == a[i]);
        } else {
            assert((a + b)[i] == b[i - a.len()]);
        }
    }
}

/// Appending a drop appends its trail keys to the frame's keys.
pub proof fn lemma_all_trail_keys_push(ds: Seq<Droplet>, d: Droplet, h: int)
    ensures
        all_trail_keys(ds.push(d), h) == all_trail_keys(ds, h) + trail_keys(d, h),
{
    assert(ds.push(d).drop_last() =~= ds);
    assert(ds.push(d).last() == d);
}

/// Every shade a trail uses is a valid palette index: trail offsets run
/// below [`TRAIL_LEN`](crate::TRAIL_LEN), which the palette covers.
pub proof fn lemma_trail_shades_in_palette(d: Droplet, h: int, k: int)
    requires
        0 <= k <= TRAIL_LEN as int,
    ensures
        forall|i: int|
            0 <= i < trail_keys_upto(d, h, k).len() ==> 0 <= (
            #[trigger] trail_keys_upto(d, h, k)[i]).2 < SHADE_COUNT as int,
    decreases k,
{
    if k > 0 {
        lemma_trail_shades_in_palette(d, h, k - 1);
        let prev = trail_keys_upto(d, h, k - 1);
        let cur = trail_keys_upto(d, h, k);
        assert forall|i: int| 0 <= i < cur.len() implies 0 <= (#[trigger] cur[i]).2
            < SHADE_COUNT as int by {
            if i < prev.len() {
                assert(cur[i] == prev[i]);
            }
        }
    }
}

} // verus!
