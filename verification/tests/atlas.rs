use u5dungeon::atlas::{expand_nibbles, is_green_tile, recolor, splice_ladders, TileAtlas};
use u5dungeon::error::CorruptStreamError;
use u5dungeon::palette::{rgb_of, Color, Rgb};
use u5dungeon::unpack::unpack_lzw;

/// Pixel `offset` of tile `tile` before any change: a pattern that gives
/// every tile green pixels and tells the tiles apart.
fn source(tile: usize, offset: usize) -> u8 {
    if offset % 3 == 0 {
        2
    } else {
        ((tile * 7 + offset * 5) % 16) as u8
    }
}

fn packed_tiles() -> Vec<u8> {
    let mut packed = Vec::with_capacity(65536);
    for i in 0..65536usize {
        let a = 2 * i;
        let b = 2 * i + 1;
        let high = source(a / 256, a % 256);
        let low = source(b / 256, b % 256);
        packed.push(high << 4 | low);
    }
    packed
}

fn compress(data: &[u8]) -> Vec<u8> {
    let mut out = Vec::new();
    {
        let mut enc = lzw::Encoder::new(lzw::LsbWriter::new(&mut out), 8).unwrap();
        enc.encode_bytes(data).unwrap();
    }
    out
}

fn tile_stream() -> Vec<u8> {
    let mut stream = vec![0x00, 0x00, 0x01, 0x00];
    stream.extend_from_slice(&compress(&packed_tiles()));
    stream
}

#[test]
fn unpack_gives_back_what_was_packed() {
    let text = b"TOBEORNOTTOBEORTOBEORNOT";
    let compressed = compress(text);
    assert_ne!(&compressed[..], &text[..]);
    assert_eq!(unpack_lzw(&compressed), Ok(text.to_vec()));
    let tiles = packed_tiles();
    assert_eq!(unpack_lzw(&compress(&tiles)), Ok(tiles));
    assert_eq!(unpack_lzw(&[]), Ok(Vec::new()));
}

#[test]
fn unpack_refuses_a_code_that_is_not_in_the_table() {
    assert_eq!(unpack_lzw(&[0xFF, 0xFF, 0xFF]), Err(CorruptStreamError));
}

#[test]
fn nibbles_high_first() {
    assert_eq!(expand_nibbles(&[0x12, 0xF0, 0x0A]), vec![1, 2, 15, 0, 0, 10]);
    assert_eq!(expand_nibbles(&[]), Vec::<u8>::new());
}

#[test]
fn green_tiles() {
    for tile in 0..512usize {
        let kept = tile == 4 || tile == 91 || tile == 92 || tile == 93 || tile == 94;
        assert_eq!(is_green_tile(tile), kept);
    }
}

#[test]
fn recolor_turns_green_to_maroon_in_early_tiles() {
    let mut pixels = vec![2u8; 131072];
    pixels[1] = 3;
    recolor(&mut pixels);
    for tile in 0..512usize {
        for offset in [0usize, 1, 100, 255] {
            let expected = if tile == 0 && offset == 1 {
                3
            } else if tile < 128 && !is_green_tile(tile) {
                4
            } else {
                2
            };
            assert_eq!(pixels[tile * 256 + offset], expected);
        }
    }
}

#[test]
fn ladders_are_spliced() {
    let mut pixels = vec![0u8; 131072];
    for i in 0..256 {
        pixels[200 * 256 + i] = 1;
        pixels[201 * 256 + i] = 9;
        pixels[204 * 256 + i] = 5;
    }
    splice_ladders(&mut pixels);
    for i in 0..256 {
        assert_eq!(pixels[204 * 256 + i], if i < 128 { 1 } else { 9 });
        assert_eq!(pixels[200 * 256 + i], 1);
        assert_eq!(pixels[201 * 256 + i], 9);
        assert_eq!(pixels[203 * 256 + i], 0);
        assert_eq!(pixels[205 * 256 + i], 0);
    }
}

#[test]
fn atlas_from_stream() {
    let atlas = TileAtlas::decode(&tile_stream()).unwrap();
    assert_eq!(atlas.pixels.len(), 131072);
    for tile in 0..512usize {
        for row in 0..16usize {
            for col in 0..16usize {
                let offset = row * 16 + col;
                let from = if tile == 204 {
                    if offset < 128 {
                        200
                    } else {
                        201
                    }
                } else {
                    tile
                };
                let raw = source(from, offset);
                let expected = if from < 128 && !is_green_tile(from) && raw == 2 { 4 } else { raw };
                assert_eq!(atlas.pixel(tile, row, col), expected);
            }
        }
    }
}

#[test]
fn atlas_is_the_same_each_time() {
    let stream = tile_stream();
    let a = TileAtlas::decode(&stream).unwrap();
    let b = TileAtlas::decode(&stream).unwrap();
    assert_eq!(a.pixels, b.pixels);
}

#[test]
fn green_stays_in_the_kept_tiles() {
    let atlas = TileAtlas::from_packed(&packed_tiles()).unwrap();
    for tile in [4usize, 91, 92, 93, 94] {
        for offset in 0..256usize {
            assert_eq!(atlas.pixel(tile, offset / 16, offset % 16), source(tile, offset));
        }
        assert_eq!(atlas.pixel(tile, 0, 0), 2);
    }
    // Their neighbours lose their green.
    assert_eq!(atlas.pixel(3, 0, 0), 4);
    assert_eq!(atlas.pixel(5, 0, 0), 4);
    assert_eq!(atlas.pixel(90, 0, 0), 4);
    assert_eq!(atlas.pixel(95, 0, 0), 4);
    assert_eq!(atlas.pixel(127, 0, 0), 4);
    assert_eq!(atlas.pixel(128, 0, 0), 2);
}

#[test]
fn tile_with_both_ladders() {
    let atlas = TileAtlas::from_packed(&packed_tiles()).unwrap();
    for row in 0..16usize {
        for col in 0..16usize {
            let from = if row * 16 + col < 128 { 200 } else { 201 };
            assert_eq!(atlas.pixel(204, row, col), atlas.pixel(from, row, col));
        }
    }
    assert_ne!(atlas.pixel(200, 7, 15), atlas.pixel(201, 7, 15));
    assert_eq!(atlas.pixel(204, 7, 15), atlas.pixel(200, 7, 15));
    assert_eq!(atlas.pixel(204, 8, 0), atlas.pixel(201, 8, 0));
}

#[test]
fn broken_streams_are_refused() {
    assert!(matches!(TileAtlas::decode(&[]), Err(CorruptStreamError)));
    assert!(matches!(TileAtlas::decode(&[0, 0, 1]), Err(CorruptStreamError)));
    // The prefix alone: nothing is unpacked.
    assert!(matches!(TileAtlas::decode(&[0, 0, 1, 0]), Err(CorruptStreamError)));
    // A code that the table does not hold.
    assert!(matches!(TileAtlas::decode(&[0, 0, 1, 0, 0xFF, 0xFF, 0xFF]), Err(CorruptStreamError)));
    // A sound stream that unpacks to too little.
    let mut short = vec![0u8; 4];
    short.extend_from_slice(&compress(&packed_tiles()[..65535]));
    assert!(matches!(TileAtlas::decode(&short), Err(CorruptStreamError)));
    // The stream without its prefix starts four bytes too late.
    assert!(matches!(TileAtlas::decode(&tile_stream()[4..]), Err(CorruptStreamError)));
    assert!(matches!(TileAtlas::from_packed(&vec![0u8; 65535]), Err(CorruptStreamError)));
    assert!(matches!(TileAtlas::from_packed(&vec![0u8; 65537]), Err(CorruptStreamError)));
    assert!(TileAtlas::from_packed(&vec![0u8; 65536]).is_ok());
}

#[test]
fn palette_colours() {
    assert_eq!(rgb_of(0), Rgb { r: 0x00, g: 0x00, b: 0x00 });
    assert_eq!(rgb_of(1), Rgb { r: 0x00, g: 0x00, b: 0xAA });
    assert_eq!(rgb_of(2), Rgb { r: 0x00, g: 0xAA, b: 0x00 });
    assert_eq!(rgb_of(4), Rgb { r: 0xAA, g: 0x00, b: 0x00 });
    assert_eq!(rgb_of(6), Rgb { r: 0xAA, g: 0x55, b: 0x00 });
    assert_eq!(rgb_of(7), Rgb { r: 0xAA, g: 0xAA, b: 0xAA });
    assert_eq!(rgb_of(8), Rgb { r: 0x55, g: 0x55, b: 0x55 });
    assert_eq!(rgb_of(12), Rgb { r: 0xFF, g: 0x55, b: 0x55 });
    assert_eq!(rgb_of(14), Rgb { r: 0xFF, g: 0xFF, b: 0x55 });
    assert_eq!(rgb_of(15), Rgb { r: 0xFF, g: 0xFF, b: 0xFF });
    assert_eq!(rgb_of(16), rgb_of(0));
    assert_eq!(Color::Black.index(), 0);
    assert_eq!(Color::Green.index(), 2);
    assert_eq!(Color::Maroon.index(), 4);
    assert_eq!(Color::Olive.index(), 6);
    assert_eq!(Color::White.index(), 15);
}
