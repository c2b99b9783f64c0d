//! Sheet composition: lays decoded tiles out in a grid, a configurable
//! number of tiles per row, and maps each color index to an 8-bit
//! grayscale intensity sample.

use vstd::prelude::*;
use vstd::arithmetic::div_mod::lemma_fundamental_div_mod;
use vstd::arithmetic::div_mod::lemma_fundamental_div_mod_converse;

use crate::sprites::Sprite;
use crate::sprites::Sprites;

verus! {

/// `a / b` rounded towards positive infinity, for `a >= 0` and `b >= 1`.
pub open spec fn ceil_div(a: int, b: int) -> int {
    (a + b - 1) / b
}

/// Ceiling division equals floor division plus one exactly when the
/// division leaves a remainder.
proof fn lemma_ceil_div(a: int, b: int)
    requires
        a >= 0,
        b >= 1,
    ensures
        a % b == 0 ==> ceil_div(a, b) == a / b,
        a % b != 0 ==> ceil_div(a, b) == a / b + 1,
{
    lemma_fundamental_div_mod(a, b);
    vstd::arithmetic::div_mod::lemma_mod_pos_bound(a, b);
    if a % b == 0 {
        assert(a + b - 1 == (a / b) * b + (b - 1)) by (nonlinear_arith)
            requires
                a == b * (a / b) + a % b,
                a % b == 0,
        ;
        lemma_fundamental_div_mod_converse(a + b - 1, b, a / b, b - 1);
    } else {
        assert(a + b - 1 == (a / b + 1) * b + (a % b - 1)) by (nonlinear_arith)
            requires
                a == b * (a / b) + a % b,
        ;
        lemma_fundamental_div_mod_converse(a + b - 1, b, a / b + 1, a % b - 1);
    }
}

/// The grayscale intensity sample that a color index maps to: the fixed
/// table `0 -> 0, 1 -> 117, 2 -> 188, 3 -> 255`, and `0` for any other
/// value.
pub open spec fn color_to_pixel(color_number: u8) -> u8 {
    if color_number == 1 {
        117
    } else if color_number == 2 {
        188
    } else if color_number == 3 {
        255
    } else {
        0
    }
}

/// The intensity sample owed at output row `r` and column `c` when
/// `tiles` are laid out `per_row` to a row: the sample of tile
/// `(r / 8) * per_row + c / 8` at local coordinates `(r % 8, c % 8)`,
/// or `0` where no tile covers the cell.
pub open spec fn pixel_at(tiles: Seq<Sprite>, per_row: int, r: int, c: int) -> u8 {
    let i = (r / 8) * per_row + c / 8;
    if i < tiles.len() {
        color_to_pixel(tiles[i].color_numbers@[r % 8]@[c % 8])
    } else {
        0
    }
}

/// Composes a tile collection into one grayscale intensity grid.
pub struct SpriteImageWriter {
    /// Count of sprites per output row.
    count_per_row: u32,
    sprites: Sprites,
}

impl SpriteImageWriter {
    /// The tiles to lay out, in decode order.
    pub closed spec fn tiles(self) -> Seq<Sprite> {
        self.sprites.tiles()
    }

    /// How many tiles stand in one output row.
    pub closed spec fn per_row(self) -> u32 {
        self.count_per_row
    }

    /// Every tile is a full 8x8 grid.
    pub closed spec fn wf(self) -> bool {
        self.sprites.wf()
    }

    pub fn new(sprites: Sprites, count_per_row: u32) -> (r: SpriteImageWriter)
        ensures
            r.tiles() == sprites.tiles(),
            r.per_row() == count_per_row,
            r.wf() == sprites.wf(),
    {
        SpriteImageWriter { sprites, count_per_row }
    }

    /// How many tile rows the sheet has: the tile count divided by the
    /// tiles per row, rounded up so that a partly filled last row counts.
    pub fn row_count(&self) -> (r: u32)
        requires
            self.per_row() >= 1,
            ceil_div(self.tiles().len() as int, self.per_row() as int) <= u32::MAX,
        ensures
            r == ceil_div(self.tiles().len() as int, self.per_row() as int),
    {
        let len: usize = self.sprites.len();
        let per: usize = self.count_per_row as usize;
        let quotient: usize = len / per;
        let remainder: usize = len % per;
        proof {
            lemma_ceil_div(len as int, per as int);
        }
        if remainder == 0 {
            quotient as u32
        } else {
            (quotient + 1) as u32
        }
    }

    /// Builds the full output grid, row-major: height `8 * row_count`,
    /// width `8 * count_per_row`, and every cell holds exactly the sample
    /// that `pixel_at` owes it — tiles in decode order, left to right then
    /// top to bottom, and background cells at `0`.
    pub fn compose(&self) -> (grid: Vec<Vec<u8>>)
        requires
            self.per_row() >= 1,
            self.wf(),
            ceil_div(self.tiles().len() as int, self.per_row() as int) <= u32::MAX,
            8 * ceil_div(self.tiles().len() as int, self.per_row() as int) <= usize::MAX,
            8 * self.per_row() <= usize::MAX,
            self.tiles().len() + self.per_row() <= usize::MAX,
        ensures
            grid@.len() == 8 * ceil_div(self.tiles().len() as int, self.per_row() as int),
            forall|r: int| 0 <= r < grid@.len() ==> (#[trigger] grid@[r])@.len() == 8 * self.per_row(),
            forall|r: int, c: int|
                0 <= r < grid@.len() && 0 <= c < 8 * self.per_row() ==> (#[trigger] grid@[r]@[c])
                    == pixel_at(self.tiles(), self.per_row() as int, r, c),
    {
        let row_count: usize = self.row_count() as usize;
        let height: usize = 8 * row_count;
        let width: usize = 8 * (self.count_per_row as usize);
        let len: usize = self.sprites.len();
        let per: usize = self.count_per_row as usize;
        let ghost tiles = self.tiles();
        let mut grid: Vec<Vec<u8>> = Vec::new();
        let mut r: usize = 0;
        while r < height
            invariant
                r <= height,
                per >= 1,
                self.wf(),
                per == self.per_row(),
                len == self.tiles().len(),
                tiles == self.tiles(),
                row_count == ceil_div(len as int, per as int),
                height == 8 * row_count,
                width == 8 * per,
                len + per <= usize::MAX,
                grid@.len() == r,
                forall|rr: int| 0 <= rr < r ==> (#[trigger] grid@[rr])@.len() == width,
                forall|rr: int, c: int|
                    0 <= rr < r && 0 <= c < width ==> (#[trigger] grid@[rr]@[c]) == pixel_at(
                        tiles,
                        per as int,
                        rr,
                        c,
                    ),
            decreases height - r,
        {
            let tile_row: usize = r / 8;
            proof {
                assert(row_count >= 1) by (nonlinear_arith)
                    requires
                        r < height,
                        height == 8 * row_count,
                ;
                assert(tile_row <= row_count - 1) by (nonlinear_arith)
                    requires
                        tile_row == r / 8,
                        r < height,
                        height == 8 * row_count,
                ;
                assert(row_count * per <= len + per - 1) by (nonlinear_arith)
                    requires
                        per >= 1,
                        len >= 0,
                        row_count == (len + per - 1) / (per as int),
                ;
                assert(len >= 1) by (nonlinear_arith)
                    requires
                        row_count >= 1,
                        per >= 1,
                        len >= 0,
                        row_count == (len + per - 1) / (per as int),
                ;
                assert(tile_row * per <= (row_count - 1) * per) by (nonlinear_arith)
                    requires
                        tile_row <= row_count - 1,
                        per >= 0,
                ;
                assert((row_count - 1) * per == row_count * per - per) by (nonlinear_arith);
            }
            let base: usize = tile_row * per;
            let mut row: Vec<u8> = Vec::new();
            let mut c: usize = 0;
            while c < width
                invariant
                    c <= width,
                    per >= 1,
                    self.wf(),
                    per == self.per_row(),
                    len == self.tiles().len(),
                    tiles == self.tiles(),
                    width == 8 * per,
                    r < height,
                    tile_row == r / 8,
                    base == tile_row * per,
                    len >= 1,
                    base <= len - 1,
                    len + per <= usize::MAX,
                    row@.len() == c,
                    forall|cc: int|
                        0 <= cc < c ==> (#[trigger] row@[cc]) == pixel_at(tiles, per as int, r as int, cc),
                decreases width - c,
            {
                let tile_col: usize = c / 8;
                proof {
                    assert(tile_col <= per - 1) by (nonlinear_arith)
                        requires
                            per >= 1,
                            c < width,
                            width == 8 * per,
                            tile_col == c / 8,
                    ;
                }
                let i: usize = base + tile_col;
                let sample: u8 = if i < len {
                    let sprite = self.sprites.get(i);
                    let color_number: u8 = sprite.color_numbers[r % 8][c % 8];
                    SpriteImageWriter::color_number_to_pixel(color_number)
                } else {
                    0
                };
                proof {
                    assert((r as int) / 8 * (per as int) + (c as int) / 8 == i) by (nonlinear_arith)
                        requires
                            i == base + tile_col,
                            base == tile_row * per,
                            tile_row == r / 8,
                            tile_col == c / 8,
                    ;
                }
                row.push(sample);
                c = c + 1;
            }
            grid.push(row);
            r = r + 1;
        }
        proof {
            assert(grid@.len() == 8 * ceil_div(tiles.len() as int, per as int));
        }
        grid
    }

    /// The grayscale sample for one color index: the fixed table
    /// `0 -> 0, 1 -> 117, 2 -> 188, 3 -> 255`, with `0` for any value
    /// outside the decoder's range.
    pub fn color_number_to_pixel(color_number: u8) -> (r: u8)
        ensures
            r == color_to_pixel(color_number),
    {
        match color_number {
            0 => 0,
            1 => 117,
            2 => 188,
            3 => 255,
            _ => 0,
        }
    }
}

} // verus!
