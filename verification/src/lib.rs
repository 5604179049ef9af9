//! A terminal "digital rain" animation library.
//!
//! The verified core models the falling drops, the per-tick update rule,
//! the trail layout, the resize pruning rule, and the fading colour
//! palette. Terminal I/O (cursor moves, styled prints, screen-buffer and
//! raw-mode switching) is left to the binary around the library; the
//! random-number source is called through a few trusted wrappers.

pub mod drops;
pub mod palette;
mod rng;
pub mod session;

use vstd::prelude::*;

verus! {

/// Number of trail segments rendered behind a drop's head.
pub const TRAIL_LEN: u16 = 8;

/// Greatest grid height a session accepts. A drop's head row is a `u16` and
/// may run `2 * TRAIL_LEN + 1` rows past the bottom edge before it is
/// recycled, so the height must leave that much headroom.
pub const MAX_HEIGHT: u16 = u16::MAX - 2 * TRAIL_LEN - 1;

} // verus!
