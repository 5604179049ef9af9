//! The animation session: the live set of drops, the grid dimensions, and
//! the random source, with the per-tick update rule and the resize pruning
//! rule.
//!
//! A [`Session`] does no terminal I/O itself. [`Session::tick`] returns the
//! frame's glyphs as a list of [`Cell`]s for the caller to draw, and
//! [`Session::resize`] takes the freshly queried dimensions as arguments.

use crate::drops::{
    all_glyphs, all_trail_keys, drop_in_bounds, drop_step, keys_of, lemma_all_glyphs_add,
    lemma_all_trail_keys_push, lemma_keys_of_add, lemma_step_in_bounds, trail_cells, Cell, Droplet,
};
use crate::rng::{fresh_rng, pick_column};
use crate::{MAX_HEIGHT, TRAIL_LEN};
use vstd::pervasive::VecAdditionalExecFns;
use vstd::prelude::*;

verus! {

/// Rows past the bottom edge a drop may keep across a resize before it is
/// pruned.
pub const RESIZE_MARGIN: u16 = 10;

/// Whether a drop survives a resize to width `w` and height `h`.
pub open spec fn keep_after_resize(d: Droplet, w: int, h: int) -> bool {
    d.x < w && d.y < h + RESIZE_MARGIN as int
}

/// The drops that survive a resize, in their original order.
pub open spec fn pruned(ds: Seq<Droplet>, w: int, h: int) -> Seq<Droplet>
    decreases ds.len(),
{
    if ds.len() == 0 {
        Seq::empty()
    } else if keep_after_resize(ds.last(), w, h) {
        pruned(ds.drop_last(), w, h).push(ds.last())
    } else {
        pruned(ds.drop_last(), w, h)
    }
}

/// How many drops a tick leaves behind, given how many it found: one more
/// while the count sits under the cap of twice the width.
pub open spec fn grown_len(len: int, w: int) -> int {
    if len < 2 * w {
        len + 1
    } else {
        len
    }
}

/// The animation state: the live drops, the grid dimensions, and the
/// random source used for column placement and glyph choice.
pub struct Session {
    drops: Vec<Droplet>,
    width: u16,
    height: u16,
    rng: rand::rngs::ThreadRng,
}

impl Session {
    /// The live drops, in their stored order.
    pub closed spec fn drops_view(self) -> Seq<Droplet> {
        self.drops@
    }

    /// The grid width the session last saw.
    pub closed spec fn grid_width(self) -> u16 {
        self.width
    }

    /// The grid height the session last saw.
    pub closed spec fn grid_height(self) -> u16 {
        self.height
    }

    /// Well-formedness: the height leaves headroom for the wrap window, and
    /// every drop lies inside the grid bounds.
    pub closed spec fn wf(self) -> bool {
        &&& self.height <= MAX_HEIGHT
        &&& forall|i: int|
            0 <= i < self.drops@.len() ==> drop_in_bounds(
                #[trigger] self.drops@[i],
                self.width as int,
                self.height as int,
            )
    }

    /// Open a session on a `w` by `h` grid, with no drops yet.
    pub fn new(w: u16, h: u16) -> (s: Session)
        requires
            h <= MAX_HEIGHT,
        ensures
            s.wf(),
            s.grid_width() == w,
            s.grid_height() == h,
            s.drops_view() == Seq::<Droplet>::empty(),
    {
        Session { drops: Vec::new(), width: w, height: h, rng: fresh_rng() }
    }

    /// Replace the stored dimensions with freshly queried ones and prune
    /// every drop the new grid no longer holds; the survivors keep their
    /// order.
    pub fn resize(&mut self, w: u16, h: u16)
        requires
            h <= MAX_HEIGHT,
        ensures
            final(self).wf(),
            final(self).grid_width() == w,
            final(self).grid_height() == h,
            final(self).drops_view() == pruned(old(self).drops_view(), w as int, h as int),
    {
        self.width = w;
        self.height = h;
        let mut kept: Vec<Droplet> = Vec::new();
        let n = self.drops.len();
        let mut i: usize = 0;
        while i < n
            invariant
                i <= n,
                n == self.drops@.len(),
                self.drops@ == old(self).drops@,
                self.width == w,
                self.height == h,
                kept@ == pruned(self.drops@.take(i as int), w as int, h as int),
                h <= MAX_HEIGHT,
            decreases n - i,
        {
            let d = self.drops[i];
            if d.x < w && d.y < h + RESIZE_MARGIN {
                kept.push(d);
            }
            proof {
                let s = self.drops@;
                assert(s.take(i as int + 1) =~= s.take(i as int).push(s[i as int]));
                assert(s.take(i as int + 1).drop_last() =~= s.take(i as int));
            }
            i = i + 1;
        }
        proof {
            assert(self.drops@.take(n as int) =~= self.drops@);
        }
        self.drops = kept;
        proof {
            lemma_pruned_in_bounds(old(self).drops@, w as int, h as int);
        }
    }

    /// Advance the animation by one frame. Every drop falls one row — or is
    /// recycled to the top in a fresh random column if it had run past the
    /// wrap limit — and its trail is drawn; then, while the drop count sits
    /// under the cap of twice the width, one new drop is spawned on the top
    /// row in a fresh random column. The returned cells are the frame's
    /// glyphs: the trails of the updated drops, in drop order (the drop
    /// spawned this tick is drawn from the next tick on).
    pub fn tick(&mut self) -> (cells: Vec<Cell>)
        requires
            old(self).wf(),
        ensures
            final(self).wf(),
            final(self).grid_width() == old(self).grid_width(),
            final(self).grid_height() == old(self).grid_height(),
            final(self).drops_view().len() == grown_len(
                old(self).drops_view().len() as int,
                old(self).grid_width() as int,
            ),
            forall|i: int|
                0 <= i < old(self).drops_view().len() ==> drop_step(
                    old(self).drops_view()[i],
                    #[trigger] final(self).drops_view()[i],
                    old(self).grid_width() as int,
                    old(self).grid_height() as int,
                ),
            old(self).drops_view().len() < 2 * old(self).grid_width() as int
                ==> final(self).drops_view().last().y == 0 && final(self).drops_view().last().x
                < old(self).grid_width(),
            keys_of(cells@) == all_trail_keys(
                final(self).drops_view().take(old(self).drops_view().len() as int),
                old(self).grid_height() as int,
            ),
            all_glyphs(cells@),
    {
        let ghost pre = *old(self);
        let mut cells: Vec<Cell> = Vec::new();
        let n = self.drops.len();
        let mut i: usize = 0;
        while i < n
            invariant
                i <= n,
                n == self.drops@.len(),
                n == pre.drops@.len(),
                pre.wf(),
                self.width == pre.width,
                self.height == pre.height,
                forall|j: int|
                    0 <= j < i ==> drop_step(
                        pre.drops@[j],
                        #[trigger] self.drops@[j],
                        pre.width as int,
                        pre.height as int,
                    ),
                forall|j: int| i <= j < n ==> self.drops@[j] == pre.drops@[j],
                keys_of(cells@) == all_trail_keys(
                    self.drops@.take(i as int),
                    pre.height as int,
                ),
                all_glyphs(cells@),
            decreases n - i,
        {
            let d = self.drops[i];
            proof {
                assert(drop_in_bounds(pre.drops@[i as int], pre.width as int, pre.height as int));
            }
            let d2: Droplet = if d.y > self.height + 2 * TRAIL_LEN {
                Droplet { x: pick_column(&mut self.rng, self.width), y: 1 }
            } else {
                Droplet { x: d.x, y: d.y + 1 }
            };
            let ghost before_set = self.drops@;
            self.drops.set(i, d2);
            proof {
                assert(self.drops@.take(i as int) =~= before_set.take(i as int));
            }
            let mut trail = trail_cells(d2, self.height, &mut self.rng);
            let ghost cells_before = cells@;
            let ghost trail_seq = trail@;
            cells.append(&mut trail);
            proof {
                lemma_keys_of_add(cells_before, trail_seq);
                lemma_all_glyphs_add(cells_before, trail_seq);
                lemma_all_trail_keys_push(self.drops@.take(i as int), d2, pre.height as int);
                assert(self.drops@.take(i as int + 1) =~= self.drops@.take(i as int).push(d2));
            }
            i = i + 1;
        }
        proof {
            assert(self.drops@.take(n as int) =~= self.drops@);
        }
        if self.drops.len() < 2 * (self.width as usize) {
            let x = pick_column(&mut self.rng, self.width);
            let ghost before_push = self.drops@;
            self.drops.push(Droplet { x, y: 0 });
            proof {
                assert(self.drops@.take(n as int) =~= before_push);
            }
        }
        proof {
            assert forall|j: int| 0 <= j < self.drops@.len() implies drop_in_bounds(
                #[trigger] self.drops@[j],
                pre.width as int,
                pre.height as int,
            ) by {
                if j < n {
                    lemma_step_in_bounds(
                        pre.drops@[j],
                        self.drops@[j],
                        pre.width as int,
                        pre.height as int,
                    );
                }
            }
        }
        cells
    }

    /// The grid width the session last saw.
    pub fn width(&self) -> (w: u16)
        ensures
            w == self.grid_width(),
    {
        self.width
    }

    /// The grid height the session last saw.
    pub fn height(&self) -> (h: u16)
        ensures
            h == self.grid_height(),
    {
        self.height
    }

    /// How many drops are live.
    pub fn drop_count(&self) -> (n: usize)
        ensures
            n == self.drops_view().len(),
    {
        self.drops.len()
    }

    /// The drop at index `i` of the stored order.
    pub fn drop_at(&self, i: usize) -> (d: Droplet)
        requires
            i < self.drops_view().len(),
        ensures
            d == self.drops_view()[i as int],
    {
        self.drops[i]
    }
}

/// Bounds invariant: after a resize, every surviving drop lies inside the
/// new width and strictly inside the wrap window.
pub proof fn lemma_pruned_in_bounds(ds: Seq<Droplet>, w: int, h: int)
    requires
        0 <= h,
    ensures
        forall|i: int|
            0 <= i < pruned(ds, w, h).len() ==> (#[trigger] pruned(ds, w, h)[i]).x < w && pruned(
                ds,
                w,
                h,
            )[i].y < h + 2 * (TRAIL_LEN as int) + 1,
    decreases ds.len(),
{
    if ds.len() > 0 {
        lemma_pruned_in_bounds(ds.drop_last(), w, h);
        let prev = pruned(ds.drop_last(), w, h);
        let cur = pruned(ds, w, h);
        assert forall|i: int| 0 <= i < cur.len() implies (#[trigger] cur[i]).x < w && cur[i].y < h
            + 2 * (TRAIL_LEN as int) + 1 by {
            if i < prev.len() {
                assert(cur[i] == prev[i]);
            }
        }
    }
}

/// Cap invariant: a tick never lifts the drop count above twice the width —
/// a count at or under the cap stays at or under it.
pub proof fn lemma_cap_preserved(len: int, w: int)
    requires
        0 <= len,
        len <= 2 * w,
    ensures
        grown_len(len, w) <= 2 * w,
{
}

/// Startup: the first tick on an empty session of positive width spawns
/// exactly one drop.
pub proof fn lemma_first_tick_spawns(w: int)
    requires
        1 <= w,
    ensures
        grown_len(0, w) == 1,
{
}

} // verus!
