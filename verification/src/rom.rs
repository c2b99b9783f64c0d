//! Container parsing: validates the fixed 16-byte header of a cartridge ROM
//! image and slices out the character (tile-graphics) region.

use vstd::prelude::*;

verus! {

/// Size of the fixed header at the start of a container, in bytes.
pub const HEADER_SIZE: usize = 16;
/// Size of one program-data unit, in bytes.
pub const PROGRAM_UNIT_SIZE: usize = 16384;
/// Size of one character-data (graphics) unit, in bytes.
pub const CHARACTER_UNIT_SIZE: usize = 8192;

/// Why a byte buffer was rejected as a container.
#[derive(Debug, PartialEq, Eq, Structural)]
pub enum RomInitializeError {
    /// The buffer does not begin with the container's magic bytes.
    FormatError,
    /// The buffer is too short: the header or a declared region extends
    /// past the end of the buffer.
    TruncatedInput,
}

/// The buffer begins with the magic bytes `"NES"` followed by 0x1A.
pub open spec fn magic_ok(bytes: Seq<u8>) -> bool {
    &&& bytes.len() >= 4
    &&& bytes[0] == 0x4e
    &&& bytes[1] == 0x45
    &&& bytes[2] == 0x53
    &&& bytes[3] == 0x1a
}

/// Start offset of the character region: the header, then the program
/// region of `bytes[4]` units of 16384 bytes each.
pub open spec fn chr_start(bytes: Seq<u8>) -> int {
    HEADER_SIZE + bytes[4] * PROGRAM_UNIT_SIZE
}

/// End offset of the character region: `bytes[5]` units of 8192 bytes
/// after its start.
pub open spec fn chr_end(bytes: Seq<u8>) -> int {
    chr_start(bytes) + bytes[5] * CHARACTER_UNIT_SIZE
}

/// The fixed-layout header at the start of a container. It exists only to
/// locate the data regions; no field other than the magic is range-checked.
#[derive(Debug, PartialEq, Eq)]
pub struct INesHeader {
    /// ASCII letters 'NES' followed by 0x1A (EOF).
    pub magic_numbers: [u8; 4],
    /// Number of pages for the program rom.
    pub prg_page: u8,
    /// Number of pages for the character rom.
    pub chr_page: u8,
}

impl INesHeader {
    /// Reads the header fields from the front of a buffer. Fails with
    /// `TruncatedInput` when the buffer is too short to hold them, and with
    /// `FormatError` when the magic bytes are wrong.
    pub fn new(rom_bytes: &Vec<u8>) -> (r: Result<INesHeader, RomInitializeError>)
        ensures
            rom_bytes@.len() < 6 ==> r == Err::<INesHeader, RomInitializeError>(
                RomInitializeError::TruncatedInput,
            ),
            rom_bytes@.len() >= 6 && !magic_ok(rom_bytes@) ==> r == Err::<
                INesHeader,
                RomInitializeError,
            >(RomInitializeError::FormatError),
            rom_bytes@.len() >= 6 && magic_ok(rom_bytes@) ==> {
                &&& r is Ok
                &&& r->Ok_0.magic_numbers@ == rom_bytes@.subrange(0, 4)
                &&& r->Ok_0.prg_page == rom_bytes@[4]
                &&& r->Ok_0.chr_page == rom_bytes@[5]
            },
    {
        if rom_bytes.len() < 6 {
            return Err(RomInitializeError::TruncatedInput);
        }
        let magic_numbers: [u8; 4] = [rom_bytes[0], rom_bytes[1], rom_bytes[2], rom_bytes[3]];
        if !(magic_numbers[0] == 0x4e && magic_numbers[1] == 0x45 && magic_numbers[2] == 0x53
            && magic_numbers[3] == 0x1a) {
            return Err(RomInitializeError::FormatError);
        }
        proof {
            assert(magic_numbers@ =~= rom_bytes@.subrange(0, 4));
        }
        Ok(INesHeader { magic_numbers, prg_page: rom_bytes[4], chr_page: rom_bytes[5] })
    }
}

/// A parsed container: its header and a copy of the character region.
pub struct Rom {
    pub header: INesHeader,
    pub character_rom: Vec<u8>,
}

impl Rom {
    /// Parses a container from its raw bytes. Fails with `TruncatedInput`
    /// when the buffer holds no full header or the declared character
    /// region extends past its end, and with `FormatError` when the magic
    /// bytes are wrong; otherwise returns the header together with the
    /// character region `bytes[chr_start(..) .. chr_end(..)]`.
    pub fn new(rom_bytes: &Vec<u8>) -> (r: Result<Rom, RomInitializeError>)
        ensures
            rom_bytes@.len() < 16 ==> r == Err::<Rom, RomInitializeError>(
                RomInitializeError::TruncatedInput,
            ),
            rom_bytes@.len() >= 16 && !magic_ok(rom_bytes@) ==> r == Err::<
                Rom,
                RomInitializeError,
            >(RomInitializeError::FormatError),
            rom_bytes@.len() >= 16 && magic_ok(rom_bytes@) && chr_end(rom_bytes@)
                > rom_bytes@.len() ==> r == Err::<Rom, RomInitializeError>(
                RomInitializeError::TruncatedInput,
            ),
            rom_bytes@.len() >= 16 && magic_ok(rom_bytes@) && chr_end(rom_bytes@)
                <= rom_bytes@.len() ==> {
                &&& r is Ok
                &&& r->Ok_0.header.magic_numbers@ == rom_bytes@.subrange(0, 4)
                &&& r->Ok_0.header.prg_page == rom_bytes@[4]
                &&& r->Ok_0.header.chr_page == rom_bytes@[5]
                &&& r->Ok_0.character_rom@ == rom_bytes@.subrange(
                    chr_start(rom_bytes@),
                    chr_end(rom_bytes@),
                )
            },
    {
        if rom_bytes.len() < 16 {
            return Err(RomInitializeError::TruncatedInput);
        }
        let header = match INesHeader::new(rom_bytes) {
            Ok(header) => header,
            Err(e) => { return Err(e); },
        };
        let chr_rom_start: usize = HEADER_SIZE + header.prg_page as usize * PROGRAM_UNIT_SIZE;
        let chr_rom_end: usize = chr_rom_start + header.chr_page as usize * CHARACTER_UNIT_SIZE;
        if chr_rom_end > rom_bytes.len() {
            return Err(RomInitializeError::TruncatedInput);
        }
        let mut character_rom: Vec<u8> = Vec::new();
        let mut i: usize = chr_rom_start;
        while i < chr_rom_end
            invariant
                chr_rom_start <= i <= chr_rom_end,
                chr_rom_end <= rom_bytes@.len(),
                character_rom@ == rom_bytes@.subrange(chr_rom_start as int, i as int),
            decreases chr_rom_end - i,
        {
            character_rom.push(rom_bytes[i]);
            proof {
                assert(character_rom@ =~= rom_bytes@.subrange(chr_rom_start as int, i + 1));
            }
            i = i + 1;
        }
        Ok(Rom { header, character_rom })
    }
}

} // verus!
