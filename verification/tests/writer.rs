use nes_sprites::sprites::Sprites;
use nes_sprites::writer::SpriteImageWriter;

#[test]
fn row_count_by_divisible() {
    let character_rom = &vec![0u8; 16 * 10];
    let sprites = Sprites::new(character_rom);

    let writer = SpriteImageWriter::new(sprites, 2);
    assert_eq!(writer.row_count(), 5);
}

#[test]
fn row_count_by_indivisible() {
    let character_rom = &vec![0u8; 16 * 10];
    let sprites = Sprites::new(character_rom);

    let writer = SpriteImageWriter::new(sprites, 3);
    let row_count = writer.row_count();
    assert!(row_count != 3);
    assert_eq!(row_count, 4);
}

#[test]
fn color_number_to_pixel() {
    let white = 255u8;
    let right_gray = 188u8;
    let gray = 117u8;
    let black = 0u8;

    assert_eq!(SpriteImageWriter::color_number_to_pixel(3), white);
    assert_eq!(SpriteImageWriter::color_number_to_pixel(2), right_gray);
    assert_eq!(SpriteImageWriter::color_number_to_pixel(1), gray);
    assert_eq!(SpriteImageWriter::color_number_to_pixel(0), black);
}

#[test]
fn color_number_fallback_is_black() {
    // values outside the decoder's 2-bit range map to intensity 0
    assert_eq!(SpriteImageWriter::color_number_to_pixel(4), 0);
    assert_eq!(SpriteImageWriter::color_number_to_pixel(200), 0);
    assert_eq!(SpriteImageWriter::color_number_to_pixel(255), 0);
}

#[test]
fn compose_places_tiles_and_background() {
    // one tile with a known pattern, laid out two tiles per row: the right
    // half of the sheet is uncovered background
    let chunk = [
        0b11111000u8,
        0b11111000u8,
        0b11111000u8,
        0b11111000u8,
        0b11111000u8,
        0b00000000u8,
        0b00000000u8,
        0b00000000u8,
        0b00000000u8,
        0b00000000u8,
        0b00000000u8,
        0b00011111u8,
        0b00011111u8,
        0b00011111u8,
        0b00011111u8,
        0b00011111u8,
    ];
    let sprites = Sprites::new(&chunk.to_vec());
    let writer = SpriteImageWriter::new(sprites, 2);
    let grid = writer.compose();

    assert_eq!(grid.len(), 8);
    for row in &grid {
        assert_eq!(row.len(), 16);
    }
    // decoded color rows 0..3 are [1,1,1,1,1,0,0,0]
    assert_eq!(grid[0][0], 117);
    assert_eq!(grid[0][4], 117);
    assert_eq!(grid[0][5], 0);
    // decoded color row 3 is [1,1,1,3,3,2,2,2]
    assert_eq!(grid[3][2], 117);
    assert_eq!(grid[3][3], 255);
    assert_eq!(grid[3][5], 188);
    // decoded color row 7 is [0,0,0,2,2,2,2,2]
    assert_eq!(grid[7][0], 0);
    assert_eq!(grid[7][7], 188);
    // the second tile slot of the only row is background
    for r in 0..8 {
        for c in 8..16 {
            assert_eq!(grid[r][c], 0);
        }
    }
}

#[test]
fn compose_wraps_rows_in_decode_order() {
    // three tiles at two per row: tile 2 starts the second tile row
    let mut character_rom = Vec::new();
    for t in 0..3u8 {
        // plane 1 all ones, plane 2 zero for t == 0; both planes set for t == 2
        for _ in 0..8 {
            character_rom.push(if t == 0 { 0xFF } else { 0x00 });
        }
        for _ in 0..8 {
            character_rom.push(if t == 2 { 0xFF } else { 0x00 });
        }
    }
    let sprites = Sprites::new(&character_rom);
    let writer = SpriteImageWriter::new(sprites, 2);
    let grid = writer.compose();

    assert_eq!(grid.len(), 16);
    for row in &grid {
        assert_eq!(row.len(), 16);
    }
    // tile 0: every color index 1 -> 117, at rows 0..8, cols 0..8
    assert_eq!(grid[0][0], 117);
    assert_eq!(grid[7][7], 117);
    // tile 1: all zero planes -> 0, at rows 0..8, cols 8..16
    assert_eq!(grid[0][8], 0);
    assert_eq!(grid[7][15], 0);
    // tile 2: only the high-bit plane set, color index 2 -> 188,
    // at rows 8..16, cols 0..8
    assert_eq!(grid[8][0], 188);
    assert_eq!(grid[15][7], 188);
    // the slot right of tile 2 is background
    assert_eq!(grid[8][8], 0);
    assert_eq!(grid[15][15], 0);
}
