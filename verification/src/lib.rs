//! Decoder for a cartridge ROM container: parses the fixed 16-byte header,
//! slices out the character (tile-graphics) region, decodes each 16-byte
//! record into an 8x8 grid of 2-bit color indices, and lays the decoded
//! tiles out as one grayscale intensity grid.

pub mod rom;
pub mod sprites;
pub mod writer;
