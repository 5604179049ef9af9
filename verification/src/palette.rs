//! The fixed ten-shade green palette used for trail segments.
//!
//! Shade `0` colours a drop's head and is the brightest; shade `9` is the
//! dimmest. Each channel falls linearly with the shade index, so the trail
//! fades towards its tail.

use vstd::prelude::*;

verus! {

/// Number of shades in the palette.
pub const SHADE_COUNT: u8 = 10;

/// Red channel of the shade at index `k`.
pub open spec fn red_at(k: int) -> int {
    100 - 10 * k
}

/// Green channel of the shade at index `k`.
pub open spec fn green_at(k: int) -> int {
    250 - 25 * k
}

/// Blue channel of the shade at index `k` (the palette keeps it equal to red).
pub open spec fn blue_at(k: int) -> int {
    red_at(k)
}

/// The RGB colour of the shade at index `k`.
pub fn shade_color(k: u8) -> (rgb: (u8, u8, u8))
    requires
        k < SHADE_COUNT,
    ensures
        rgb.0 == red_at(k as int),
        rgb.1 == green_at(k as int),
        rgb.2 == blue_at(k as int),
{
    (100 - 10 * k, 250 - 25 * k, 100 - 10 * k)
}

/// The palette dims strictly from head to tail: the green channel of a
/// later shade is strictly below that of an earlier one.
pub proof fn lemma_palette_green_strictly_decreasing(i: int, j: int)
    requires
        0 <= i < j < SHADE_COUNT,
    ensures
        green_at(j) < green_at(i),
{
}

} // verus!
