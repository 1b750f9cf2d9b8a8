use vstd::prelude::*;
use crate::error::CorruptStreamError;
use crate::palette::Color;
use crate::unpack::{unpack_lzw, unpacked};

verus! {

/// Pixels of one tile.
pub const TILE_PIXELS: usize = 256;

/// Bytes of the unpacked tile data: two pixels to the byte.
pub const PACKED_BYTES: usize = 65536;

/// Bytes before the compressed data that give its unpacked length.
pub const LENGTH_PREFIX: usize = 4;

/// The terrain tiles below this number have their grass turned to dirt.
pub const RECOLORED_TILES: usize = 128;

/// Tile of the ladder that leads up, and of the one that leads down.
pub const UP_LADDER_TILE: usize = 200;

pub const DOWN_LADDER_TILE: usize = 201;

/// Tile that is made of the upper half of the one and the lower half of the
/// other.
pub const BOTH_LADDERS_TILE: usize = 204;

/// The `i`-th pixel of packed tile data: the high nibble of a byte comes
/// before the low one.
pub open spec fn source_pixel(packed: Seq<u8>, i: int) -> u8 {
    if i % 2 == 0 {
        (packed[i / 2] as int / 16) as u8
    } else {
        (packed[i / 2] as int % 16) as u8
    }
}

/// The terrain tiles whose green is real green: swamp, and four pieces of
/// furniture.
pub open spec fn keeps_green(tile: int) -> bool {
    tile == 4 || 91 <= tile <= 94
}

/// A pixel of a tile after the grass of the early terrain tiles has become
/// dirt.
pub open spec fn recolored(tile: int, pixel: u8) -> u8 {
    if tile < 128 && !keeps_green(tile) && pixel == Color::Green.palette_index() {
        Color::Maroon.palette_index()
    } else {
        pixel
    }
}

/// Every pixel of the vector is the recoloured pixel of `source`.
pub open spec fn is_recolored(pixels: Seq<u8>, source: Seq<u8>) -> bool {
    &&& pixels.len() == source.len()
    &&& forall|i: int| 0 <= i < pixels.len() ==> #[trigger] pixels[i] == recolored(i / 256, source[i])
}

/// The tile from which the pixel at `offset` of tile `tile` is taken: the two
/// ladders for the halves of the tile that shows both, else the tile itself.
pub open spec fn origin_tile(tile: int, offset: int) -> int {
    if tile == 204 {
        if offset < 128 {
            200
        } else {
            201
        }
    } else {
        tile
    }
}

/// Palette index of the pixel at `offset` (row times 16 plus column) of a
/// tile of the atlas that is made from this packed data.
pub open spec fn atlas_pixel(packed: Seq<u8>, tile: int, offset: int) -> u8 {
    let from = origin_tile(tile, offset);
    recolored(from, source_pixel(packed, from * 256 + offset))
}

/// 512 tiles of 16 by 16 pixels, each pixel an index into the palette.
#[derive(Clone, Debug)]
pub struct TileAtlas {
    pub pixels: Vec<u8>,
}

impl TileAtlas {
    pub open spec fn wf(&self) -> bool {
        &&& self.pixels@.len() == 131072
        &&& forall|i: int| 0 <= i < 131072 ==> #[trigger] self.pixels@[i] < 16
    }

    /// Palette index at row `row` and column `col` of tile `tile`.
    pub open spec fn pixel_at(&self, tile: int, row: int, col: int) -> u8 {
        self.pixels@[tile * 256 + row * 16 + col]
    }

    /// The atlas is the one that this packed data makes.
    pub open spec fn holds(&self, packed: Seq<u8>) -> bool {
        &&& self.pixels@.len() == 131072
        &&& forall|tile: int, offset: int|
            0 <= tile < 512 && 0 <= offset < 256 ==> #[trigger] self.pixels@[tile * 256 + offset]
                == atlas_pixel(packed, tile, offset)
    }

    pub fn pixel(&self, tile: usize, row: usize, col: usize) -> (p: u8)
        requires
            self.wf(),
            tile < 512,
            row < 16,
            col < 16,
        ensures
            p == self.pixel_at(tile as int, row as int, col as int),
            p < 16,
    {
        self.pixels[tile * 256 + row * 16 + col]
    }

    /// Makes the atlas from unpacked tile data.
    pub fn from_packed(packed: &[u8]) -> (r: Result<TileAtlas, CorruptStreamError>)
        ensures
            r is Ok <==> packed@.len() == 65536,
            r matches Ok(atlas) ==> atlas.wf() && atlas.holds(packed@),
    {
        if packed.len() != PACKED_BYTES {
            return Err(CorruptStreamError);
        }
        let mut pixels = expand_nibbles(packed);
        let ghost source = pixels@;
        recolor(&mut pixels);
        let ghost dyed = pixels@;
        splice_ladders(&mut pixels);
        let atlas = TileAtlas { pixels };
        proof {
            assert forall|tile: int, offset: int|
                0 <= tile < 512 && 0 <= offset < 256 implies #[trigger] atlas.pixels@[tile * 256
                + offset] == atlas_pixel(packed@, tile, offset) by {
                let from = origin_tile(tile, offset);
                let i = from * 256 + offset;
                assert(i / 256 == from && i % 256 == offset);
                assert(dyed[i] == recolored(i / 256, source[i]));
                assert(source[i] == source_pixel(packed@, i));
                if tile == 204 {
                    assert(atlas.pixels@[204 * 256 + offset] == dyed[i]);
                } else {
                    assert(atlas.pixels@[i] == dyed[i]);
                }
            }
            assert forall|i: int| 0 <= i < 131072 implies #[trigger] atlas.pixels@[i] < 16 by {
                let tile = i / 256;
                let offset = i % 256;
                assert(i == tile * 256 + offset);
                assert(atlas.pixels@[tile * 256 + offset] == atlas_pixel(packed@, tile, offset));
            }
        }
        Ok(atlas)
    }

    /// Makes the atlas from the compressed tile stream: a length prefix of
    /// four bytes, which is passed over, and the compressed packed data.
    pub fn decode(stream: &[u8]) -> (r: Result<TileAtlas, CorruptStreamError>)
        ensures
            r is Ok <==> stream@.len() >= 4 && unpacked(stream@.skip(4)) is Some && unpacked(
                stream@.skip(4),
            )->0.len() == 65536,
            r matches Ok(atlas) ==> atlas.wf() && atlas.holds(unpacked(stream@.skip(4))->0),
    {
        if stream.len() < LENGTH_PREFIX {
            return Err(CorruptStreamError);
        }
        let body = vstd::slice::slice_subrange(stream, LENGTH_PREFIX, stream.len());
        assert(body@ =~= stream@.skip(4));
        match unpack_lzw(body) {
            Ok(packed) => TileAtlas::from_packed(packed.as_slice()),
            Err(e) => Err(e),
        }
    }
}

/// Two pixels from each byte, the high nibble first.
pub fn expand_nibbles(packed: &[u8]) -> (pixels: Vec<u8>)
    requires
        packed@.len() * 2 <= usize::MAX,
    ensures
        pixels@.len() == packed@.len() * 2,
        forall|i: int| 0 <= i < pixels@.len() ==> #[trigger] pixels@[i] == source_pixel(packed@, i),
        forall|i: int| 0 <= i < pixels@.len() ==> #[trigger] pixels@[i] < 16,
{
    let mut pixels: Vec<u8> = Vec::new();
    let mut i: usize = 0;
    while i < packed.len()
        invariant
            i <= packed@.len(),
            pixels@.len() == i * 2,
            forall|j: int| 0 <= j < pixels@.len() ==> #[trigger] pixels@[j] == source_pixel(packed@, j),
            forall|j: int| 0 <= j < pixels@.len() ==> #[trigger] pixels@[j] < 16,
        decreases packed@.len() - i,
    {
        let b: u8 = packed[i];
        let high: u8 = b >> 4;
        let low: u8 = b & 0xf;
        assert(high == b / 16 && low == b % 16 && high < 16 && low < 16) by (bit_vector)
            requires
                high == b >> 4,
                low == b & 0xf,
        ;
        pixels.push(high);
        pixels.push(low);
        i += 1;
    }
    pixels
}

/// Whether a terrain tile keeps its green.
pub fn is_green_tile(tile: usize) -> (b: bool)
    ensures
        b == keeps_green(tile as int),
{
    tile == 4 || (91 <= tile && tile <= 94)
}

/// Turns the grass of the early terrain tiles into the dirt of a dungeon:
/// green becomes maroon in the tiles below 128, but for those that keep their
/// green.
pub fn recolor(pixels: &mut Vec<u8>)
    requires
        old(pixels)@.len() >= 32768,
    ensures
        is_recolored(final(pixels)@, old(pixels)@),
{
    let ghost source = pixels@;
    let green = Color::Green.index();
    let maroon = Color::Maroon.index();
    let mut i: usize = 0;
    while i < RECOLORED_TILES * TILE_PIXELS
        invariant
            i <= 32768,
            green == Color::Green.palette_index(),
            maroon == Color::Maroon.palette_index(),
            pixels@.len() == source.len(),
            source.len() >= 32768,
            forall|j: int| 0 <= j < i ==> #[trigger] pixels@[j] == recolored(j / 256, source[j]),
            forall|j: int| i <= j < pixels@.len() ==> #[trigger] pixels@[j] == source[j],
        decreases 32768 - i,
    {
        if !is_green_tile(i / TILE_PIXELS) && pixels[i] == green {
            pixels.set(i, maroon);
        }
        i += 1;
    }
}

/// Makes the tile with both ladders: its upper half from the ladder that
/// leads up, its lower half from the one that leads down.
pub fn splice_ladders(pixels: &mut Vec<u8>)
    requires
        old(pixels)@.len() >= 52480,
    ensures
        final(pixels)@.len() == old(pixels)@.len(),
        forall|i: int|
            0 <= i < 256 ==> #[trigger] final(pixels)@[204 * 256 + i] == old(pixels)@[origin_tile(
                204,
                i,
            ) * 256 + i],
        forall|j: int|
            0 <= j < old(pixels)@.len() && !(52224 <= j < 52480) ==> #[trigger] final(pixels)@[j]
                == old(pixels)@[j],
{
    let ghost source = pixels@;
    let mut i: usize = 0;
    while i < TILE_PIXELS
        invariant
            i <= 256,
            pixels@.len() == source.len(),
            source.len() >= 52480,
            forall|k: int|
                0 <= k < i ==> #[trigger] pixels@[204 * 256 + k] == source[origin_tile(204, k) * 256
                    + k],
            forall|j: int|
                0 <= j < source.len() && !(52224 <= j < 52224 + i) ==> #[trigger] pixels@[j]
                    == source[j],
        decreases 256 - i,
    {
        let from: usize = if i < 128 {
            UP_LADDER_TILE
        } else {
            DOWN_LADDER_TILE
        };
        let p: u8 = pixels[from * TILE_PIXELS + i];
        pixels.set(BOTH_LADDERS_TILE * TILE_PIXELS + i, p);
        i += 1;
    }
}

/// The tile with both ladders shows the upper half of the ladder that leads
/// up and the lower half of the one that leads down.
pub proof fn lemma_ladders_spliced(packed: Seq<u8>, row: int, col: int)
    requires
        0 <= row < 16,
        0 <= col < 16,
    ensures
        row * 16 + col < 128 ==> atlas_pixel(packed, 204, row * 16 + col) == atlas_pixel(
            packed,
            200,
            row * 16 + col,
        ),
        row * 16 + col >= 128 ==> atlas_pixel(packed, 204, row * 16 + col) == atlas_pixel(
            packed,
            201,
            row * 16 + col,
        ),
{
}

/// The tiles that keep their green come out of the atlas as they are in the
/// packed data.
pub proof fn lemma_green_kept(packed: Seq<u8>, tile: int, offset: int)
    requires
        keeps_green(tile),
        0 <= offset < 256,
    ensures
        atlas_pixel(packed, tile, offset) == source_pixel(packed, tile * 256 + offset),
{
}

/// Two atlases made from one packed data are the same, pixel for pixel.
pub proof fn lemma_atlas_determined(a: TileAtlas, b: TileAtlas, packed: Seq<u8>)
    requires
        a.holds(packed),
        b.holds(packed),
    ensures
        a.pixels@ == b.pixels@,
{
    assert forall|i: int| 0 <= i < 131072 implies a.pixels@[i] == b.pixels@[i] by {
        let tile = i / 256;
        let offset = i % 256;
        assert(i == tile * 256 + offset);
        assert(a.pixels@[tile * 256 + offset] == atlas_pixel(packed, tile, offset));
        assert(b.pixels@[tile * 256 + offset] == atlas_pixel(packed, tile, offset));
    }
    assert(a.pixels@ =~= b.pixels@);
}

} // verus!
