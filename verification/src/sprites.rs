//! Tile decoding: partitions the character region into 16-byte records and
//! decodes each record's two bit-planes into an 8x8 grid of 2-bit color
//! indices.

use vstd::prelude::*;
use vstd::array::array_as_slice;
use vstd::slice::slice_subrange;

verus! {

/// The bit of `byte` that belongs to pixel column `x`: bit 7 is the
/// leftmost pixel, bit 0 the rightmost.
pub open spec fn plane_bit(byte: u8, x: int) -> u8 {
    (byte >> ((7 - x) as u8)) & 1
}

/// Color index of the pixel at column `x` whose row bytes are `byte1`
/// (first plane, low bit) and `byte2` (second plane, high bit): a value
/// in `{0, 1, 2, 3}`.
pub open spec fn color_index(byte1: u8, byte2: u8, x: int) -> u8 {
    (plane_bit(byte1, x) + 2 * plane_bit(byte2, x)) as u8
}

/// A color index is always one of the four 2-bit values.
pub proof fn lemma_color_index_bounded(byte1: u8, byte2: u8, x: int)
    requires
        0 <= x < 8,
    ensures
        color_index(byte1, byte2, x) <= 3,
{
    let shift = (7 - x) as u8;
    assert((byte1 >> shift) & 1 <= 1 && (byte2 >> shift) & 1 <= 1) by (bit_vector);
}

/// A correctly decoded tile holds no color index outside `{0, 1, 2, 3}`:
/// the compositor's fallback for other values can never be reached from
/// the decoder's output.
pub proof fn lemma_decoded_color_in_range(s: Sprite, chunk: Seq<u8>)
    requires
        s.decodes(chunk),
    ensures
        forall|y: int, x: int|
            0 <= y < 8 && 0 <= x < 8 ==> (#[trigger] s.color_numbers@[y]@[x]) <= 3,
{
    assert forall|y: int, x: int|
        0 <= y < 8 && 0 <= x < 8 implies (#[trigger] s.color_numbers@[y]@[x]) <= 3 by {
        lemma_color_index_bounded(chunk[y], chunk[y + 8], x);
    }
}

/// One decoded tile: an 8x8 grid of color indices, row-major, rows top to
/// bottom and columns left to right.
#[derive(Debug, PartialEq, Eq)]
pub struct Sprite {
    pub color_numbers: Vec<Vec<u8>>,
}

impl Sprite {
    /// The grid has exactly 8 rows of exactly 8 columns.
    pub open spec fn wf(self) -> bool {
        &&& self.color_numbers@.len() == 8
        &&& forall|y: int| 0 <= y < 8 ==> (#[trigger] self.color_numbers@[y])@.len() == 8
    }

    /// The grid is exactly what the 16-byte record `chunk` decodes to:
    /// row `y` is built from plane bytes `chunk[y]` and `chunk[y + 8]`.
    pub open spec fn decodes(self, chunk: Seq<u8>) -> bool {
        &&& self.wf()
        &&& forall|y: int, x: int|
            0 <= y < 8 && 0 <= x < 8 ==> (#[trigger] self.color_numbers@[y]@[x]) == color_index(
                chunk[y],
                chunk[y + 8],
                x,
            )
    }

    /// Decodes one 16-byte record: the first 8 bytes are the low-bit
    /// plane, the last 8 the high-bit plane.
    pub fn from_bytes(bytes: &[u8; 16]) -> (r: Sprite)
        ensures
            r.decodes(bytes@),
    {
        let all = array_as_slice(bytes);
        let channel_1 = slice_subrange(all, 0, 8);
        let channel_2 = slice_subrange(all, 8, 16);
        let color_numbers = Sprite::overlap_two_channel(channel_1, channel_2);
        Sprite { color_numbers }
    }

    /// Overlays the two bit-planes: for row `y` and column `x` the result
    /// is `plane_bit(channel_1[y], x) + 2 * plane_bit(channel_2[y], x)`.
    pub fn overlap_two_channel(channel_1: &[u8], channel_2: &[u8]) -> (r: Vec<Vec<u8>>)
        requires
            channel_1@.len() >= 8,
            channel_2@.len() >= 8,
        ensures
            r@.len() == 8,
            forall|y: int| 0 <= y < 8 ==> (#[trigger] r@[y])@.len() == 8,
            forall|y: int, x: int|
                0 <= y < 8 && 0 <= x < 8 ==> (#[trigger] r@[y]@[x]) == color_index(
                    channel_1@[y],
                    channel_2@[y],
                    x,
                ),
    {
        let mut overlapped_channel: Vec<Vec<u8>> = Vec::new();
        let mut y: usize = 0;
        while y < 8
            invariant
                y <= 8,
                channel_1@.len() >= 8,
                channel_2@.len() >= 8,
                overlapped_channel@.len() == y,
                forall|yy: int| 0 <= yy < y ==> (#[trigger] overlapped_channel@[yy])@.len() == 8,
                forall|yy: int, x: int|
                    0 <= yy < y && 0 <= x < 8 ==> (#[trigger] overlapped_channel@[yy]@[x])
                        == color_index(channel_1@[yy], channel_2@[yy], x),
            decreases 8 - y,
        {
            let byte1 = channel_1[y];
            let byte2 = channel_2[y];
            let mut row: Vec<u8> = Vec::new();
            let mut x: usize = 0;
            while x < 8
                invariant
                    x <= 8,
                    row@.len() == x,
                    forall|xx: int|
                        0 <= xx < x ==> (#[trigger] row@[xx]) == color_index(byte1, byte2, xx),
                decreases 8 - x,
            {
                let shift: u8 = 7 - x as u8;
                let p1: u8 = (byte1 >> shift) & 1;
                let p2: u8 = (byte2 >> shift) & 1;
                proof {
                    assert((byte1 >> shift) & 1 <= 1 && (byte2 >> shift) & 1 <= 1) by (bit_vector);
                }
                row.push(p1 + p2 * 2);
                x = x + 1;
            }
            overlapped_channel.push(row);
            y = y + 1;
        }
        overlapped_channel
    }
}

/// The ordered sequence of all tiles decoded from a character region.
pub struct Sprites {
    sprites: Vec<Sprite>,
}

impl Sprites {
    /// The decoded tiles, in region order.
    pub closed spec fn tiles(self) -> Seq<Sprite> {
        self.sprites@
    }

    /// Every tile is a full 8x8 grid.
    pub open spec fn wf(self) -> bool {
        forall|n: int| 0 <= n < self.tiles().len() ==> (#[trigger] self.tiles()[n]).wf()
    }

    /// Decodes every full 16-byte record of the region, in order; trailing
    /// bytes that do not fill a record are ignored.
    pub fn new(character_rom: &Vec<u8>) -> (r: Sprites)
        ensures
            r.tiles().len() == character_rom@.len() / 16,
            r.wf(),
            forall|n: int|
                0 <= n < r.tiles().len() ==> (#[trigger] r.tiles()[n]).decodes(
                    character_rom@.subrange(16 * n, 16 * n + 16),
                ),
    {
        let byte_sprites = Sprites::split_by_sprite_size(character_rom);
        let mut sprites: Vec<Sprite> = Vec::new();
        let mut num: usize = 0;
        while num < byte_sprites.len()
            invariant
                num <= byte_sprites@.len(),
                byte_sprites@.len() == character_rom@.len() / 16,
                forall|n: int, j: int|
                    0 <= n < byte_sprites@.len() && 0 <= j < 16 ==> (
                    #[trigger] byte_sprites@[n]@[j]) == character_rom@[16 * n + j],
                sprites@.len() == num,
                forall|n: int|
                    0 <= n < num ==> (#[trigger] sprites@[n]).decodes(
                        character_rom@.subrange(16 * n, 16 * n + 16),
                    ),
            decreases byte_sprites@.len() - num,
        {
            let sprite = Sprite::from_bytes(&byte_sprites[num]);
            proof {
                assert(16 * num + 16 <= character_rom@.len()) by (nonlinear_arith)
                    requires
                        num < character_rom@.len() / 16,
                ;
                assert(byte_sprites@[num as int]@ =~= character_rom@.subrange(
                    16 * num,
                    16 * num + 16,
                ));
            }
            sprites.push(sprite);
            num = num + 1;
        }
        Sprites { sprites }
    }

    /// The tile at `index`, in decode order.
    pub fn get(&self, index: usize) -> (r: &Sprite)
        requires
            index < self.tiles().len(),
        ensures
            *r == self.tiles()[index as int],
    {
        &self.sprites[index]
    }

    /// How many tiles were decoded.
    pub fn len(&self) -> (r: usize)
        ensures
            r == self.tiles().len(),
    {
        self.sprites.len()
    }

    /// Cuts the region into its full 16-byte records, in order; a trailing
    /// partial record is dropped.
    pub fn split_by_sprite_size(character_rom: &Vec<u8>) -> (r: Vec<[u8; 16]>)
        ensures
            r@.len() == character_rom@.len() / 16,
            forall|n: int, j: int|
                0 <= n < r@.len() && 0 <= j < 16 ==> (#[trigger] r@[n]@[j]) == character_rom@[16 * n
                    + j],
    {
        let sprite_size: usize = 16;
        let sprites_number: usize = character_rom.len() / sprite_size;
        let mut splitted_vec: Vec<[u8; 16]> = Vec::new();
        let mut num: usize = 0;
        while num < sprites_number
            invariant
                num <= sprites_number,
                sprite_size == 16,
                sprites_number == character_rom@.len() / 16,
                character_rom@.len() <= usize::MAX,
                splitted_vec@.len() == num,
                forall|n: int, j: int|
                    0 <= n < num && 0 <= j < 16 ==> (#[trigger] splitted_vec@[n]@[j])
                        == character_rom@[16 * n + j],
            decreases sprites_number - num,
        {
            proof {
                assert(16 * num + 16 <= character_rom@.len()) by (nonlinear_arith)
                    requires
                        num < character_rom@.len() / 16,
                ;
            }
            let start: usize = sprite_size * num;
            let chunk: [u8; 16] = [
                character_rom[start],
                character_rom[start + 1],
                character_rom[start + 2],
                character_rom[start + 3],
                character_rom[start + 4],
                character_rom[start + 5],
                character_rom[start + 6],
                character_rom[start + 7],
                character_rom[start + 8],
                character_rom[start + 9],
                character_rom[start + 10],
                character_rom[start + 11],
                character_rom[start + 12],
                character_rom[start + 13],
                character_rom[start + 14],
                character_rom[start + 15],
            ];
            splitted_vec.push(chunk);
            num = num + 1;
        }
        splitted_vec
    }
}

} // verus!
