use vstd::arithmetic::power2::{lemma2_to64, lemma_pow2_strictly_increases, pow2};
use vstd::bits::{lemma_u64_pow2_no_overflow, lemma_u64_shl_is_mul};
use vstd::prelude::*;

verus! {

/// Address of a map tile: column `x`, row `y` at zoom level `zoom`.
#[derive(Clone, Copy, Debug, PartialEq, Eq, Structural)]
pub struct TileCoord {
    pub x: u32,
    pub y: u32,
    pub zoom: u8,
}

/// Weight of `y` in the cache key of a tile.
const ROW_WEIGHT: u128 = 0x1_0000_0000;

/// Weight of `zoom` in the cache key of a tile.
const ZOOM_WEIGHT: u128 = 0x1_0000_0000_0000_0000;

impl TileCoord {
    /// Both `x` and `y` lie below `2^zoom`, the number of tiles in one row of the grid.
    pub open spec fn spec_is_supported(self) -> bool {
        self.x < pow2(self.zoom as nat) && self.y < pow2(self.zoom as nat)
    }

    /// The number that keys this tile in the cache; distinct tiles get distinct keys.
    pub closed spec fn spec_key(self) -> u128 {
        (self.x as int + self.y as int * ROW_WEIGHT as int + self.zoom as int * ZOOM_WEIGHT as int) as u128
    }

    pub fn new(x: u32, y: u32, zoom: u8) -> (r: Self)
        ensures
            r == (TileCoord { x, y, zoom }),
    {
        TileCoord { x, y, zoom }
    }

    /// Whether the tile lies inside the grid of its zoom level; a tile outside it
    /// cannot be rendered.
    pub fn is_supported(&self) -> (r: bool)
        ensures
            r == self.spec_is_supported(),
    {
        if self.zoom >= 32 {
            proof {
                lemma2_to64();
                if self.zoom > 32 {
                    lemma_pow2_strictly_increases(32, self.zoom as nat);
                }
            }
            true
        } else {
            let shift = self.zoom as u64;
            proof {
                lemma_u64_pow2_no_overflow(shift as nat);
                lemma_u64_shl_is_mul(1, shift);
            }
            let max_in_line: u64 = 1u64 << shift;
            (self.x as u64) < max_in_line && (self.y as u64) < max_in_line
        }
    }

    pub fn key(&self) -> (r: u128)
        ensures
            r == self.spec_key(),
    {
        self.x as u128 + self.y as u128 * ROW_WEIGHT + self.zoom as u128 * ZOOM_WEIGHT
    }
}

/// Distinct tiles never share a cache key.
pub proof fn lemma_key_injective(a: TileCoord, b: TileCoord)
    ensures
        a.spec_key() == b.spec_key() <==> a == b,
{
    if a.spec_key() == b.spec_key() {
        assert(a.x == b.x && a.y == b.y && a.zoom == b.zoom);
    }
}

} // verus!
