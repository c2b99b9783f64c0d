use nes_sprites::sprites::{Sprite, Sprites};

#[test]
fn len() {
    let character_rom = &vec![0u8; 32];
    let sprites = Sprites::new(character_rom);

    assert_eq!(2, sprites.len());
}

#[test]
fn get() {
    let character_rom = &vec![0u8; 32];
    let sprites = Sprites::new(character_rom);
    let sprite = Sprite::from_bytes(&[0u8; 16]);

    assert_eq!(sprites.get(0), &sprite);
    assert_eq!(sprites.get(1), &sprite);
}

#[test]
fn split_by_sprite_size() {
    let character_rom = &vec![
        0, 0, 0, 0, 0, 0, 0, 0, 0, 0, 0, 0, 0, 0, 0, 0, //
        1, 1, 1, 1, 1, 1, 1, 1, 1, 1, 1, 1, 1, 1, 1, 1, //
        2, 2, 2, 2, 2, 2, 2, 2, 2, 2, 2, 2, 2, 2, 2, 2, //
        3, 3, 3, 3, 3, 3, 3, 3, 3, 3, 3, 3, 3, 3, 3, 3,
    ];

    let splitted_rom = Sprites::split_by_sprite_size(character_rom);

    assert_eq!(splitted_rom, vec![[0u8; 16], [1u8; 16], [2u8; 16], [3u8; 16]]);
}

#[test]
fn from_bytes() {
    let byte_sprite = &[
        0b11111000u8,
        0b11111000u8,
        0b11111000u8,
        0b11111000u8,
        0b11111000u8,
        0b00000000u8,
        0b00000000u8,
        0b00000000u8,
        0b00000000u8,
        0b00000000u8,
        0b00000000u8,
        0b00011111u8,
        0b00011111u8,
        0b00011111u8,
        0b00011111u8,
        0b00011111u8,
    ];

    let decode_sprite = Sprite::from_bytes(byte_sprite);

    assert_eq!(
        decode_sprite,
        Sprite {
            color_numbers: vec![
                vec![1, 1, 1, 1, 1, 0, 0, 0],
                vec![1, 1, 1, 1, 1, 0, 0, 0],
                vec![1, 1, 1, 1, 1, 0, 0, 0],
                vec![1, 1, 1, 3, 3, 2, 2, 2],
                vec![1, 1, 1, 3, 3, 2, 2, 2],
                vec![0, 0, 0, 2, 2, 2, 2, 2],
                vec![0, 0, 0, 2, 2, 2, 2, 2],
                vec![0, 0, 0, 2, 2, 2, 2, 2],
            ]
        }
    );
}

#[test]
fn overlap_two_channel() {
    let channel_1 = &[
        0b11111000u8,
        0b11111000u8,
        0b11111000u8,
        0b11111000u8,
        0b11111000u8,
        0b00000000u8,
        0b00000000u8,
        0b00000000u8,
    ];

    let channel_2 = &[
        0b00000000u8,
        0b00000000u8,
        0b00000000u8,
        0b00011111u8,
        0b00011111u8,
        0b00011111u8,
        0b00011111u8,
        0b00011111u8,
    ];

    let overlapped_channel = Sprite::overlap_two_channel(channel_1, channel_2);

    assert_eq!(
        overlapped_channel,
        vec![
            vec![1, 1, 1, 1, 1, 0, 0, 0],
            vec![1, 1, 1, 1, 1, 0, 0, 0],
            vec![1, 1, 1, 1, 1, 0, 0, 0],
            vec![1, 1, 1, 3, 3, 2, 2, 2],
            vec![1, 1, 1, 3, 3, 2, 2, 2],
            vec![0, 0, 0, 2, 2, 2, 2, 2],
            vec![0, 0, 0, 2, 2, 2, 2, 2],
            vec![0, 0, 0, 2, 2, 2, 2, 2],
        ]
    );
}

#[test]
fn decode_all_drops_trailing_bytes() {
    // 16 * 2 + 5 bytes: exactly two tiles, the trailing 5 bytes ignored
    let character_rom = vec![0xABu8; 37];
    let sprites = Sprites::new(&character_rom);
    assert_eq!(sprites.len(), 2);

    // fewer than 16 bytes: no tile at all
    let sprites = Sprites::new(&vec![0xFFu8; 15]);
    assert_eq!(sprites.len(), 0);
}
