use vstd::prelude::*;
use crate::atlas::TileAtlas;
use crate::dungeon::{Dungeon, TileData, DARKNESS_TILE};
use crate::palette::{palette, rgb_of, Color, Rgb};
use crate::unfold::{find_seed, has_ground, unfold, unfolded, Placement, Unfolding};

verus! {

/// Pixels along one side of a block: 11 tiles of 16 pixels.
pub const BLOCK_PIXELS: u32 = 176;

/// Tile number of the first monster picture; a monster's picture is this
/// plus its type.
pub const MONSTER_TILES: usize = 256;

/// How a level is drawn.
#[derive(Copy, Clone, PartialEq, Eq, Structural, Debug)]
pub struct Config {
    /// Draw a monster in place of the tile it stands on.
    pub show_monsters: bool,
    /// Colour the black of tiles that hold a trigger or a target.
    pub show_secrets: bool,
    /// Lay the level out without wrapping.
    pub unfold: bool,
}

impl Config {
    /// The configuration that the three switches of the command line ask
    /// for: monsters are shown unless they are hidden, secrets are shown on
    /// demand, and the level is laid out without wrapping unless the grid as
    /// it is was asked for.
    pub fn from_flags(hide_monsters: bool, show_secrets: bool, original_grid: bool) -> (config: Config)
        ensures
            config == (Config {
                show_monsters: !hide_monsters,
                show_secrets,
                unfold: !original_grid,
            }),
    {
        Config { show_monsters: !hide_monsters, show_secrets, unfold: !original_grid }
    }
}

/// The picture of a level, `rows[y][x]`.
#[derive(Clone, Debug)]
pub struct Raster {
    pub width: u32,
    pub height: u32,
    pub rows: Vec<Vec<Rgb>>,
}

impl Raster {
    /// The rows are as many as the height says and as long as the width says.
    pub open spec fn wf(&self) -> bool {
        &&& self.rows@.len() == self.height
        &&& forall|y: int| 0 <= y < self.height ==> (#[trigger] self.rows@[y])@.len() == self.width
    }

    /// The pixels, row by row.
    pub open spec fn pixels(&self) -> Seq<Seq<Rgb>> {
        Seq::new(self.rows@.len(), |y: int| self.rows@[y]@)
    }

    /// The colour of pixel `(x, y)`.
    pub fn at(&self, x: u32, y: u32) -> (c: Rgb)
        requires
            self.wf(),
            x < self.width,
            y < self.height,
        ensures
            c == self.pixels()[y as int][x as int],
    {
        self.rows[y as usize][x as usize]
    }
}

/// A picture of 8-bit red, green and blue that the `image` crate holds, ready
/// to be written to a file.
#[verifier::external_body]
pub struct LevelImage {
    pub buffer: image::RgbImage,
}

/// The pixels that an image holds, row by row, the top row first.
pub uninterp spec fn image_rows(img: LevelImage) -> Seq<Seq<Rgb>>;

/// `image::ImageBuffer::from_fn`: an image of the raster's width and height
/// whose pixel at `(x, y)` is what the function handed to it returns for
/// `(x, y)`, here the raster's pixel there. It panics where the bytes of the
/// image, three to the pixel, are more than a vector can hold: such sizes are
/// left out.
#[verifier::external_body]
fn image_of(raster: &Raster) -> (img: LevelImage)
    requires
        raster.wf(),
        3 * raster.width * raster.height <= usize::MAX,
    ensures
        image_rows(img) == raster.pixels(),
{
    LevelImage {
        buffer: image::ImageBuffer::from_fn(
            raster.width,
            raster.height,
            |x, y| {
                let c = raster.at(x, y);
                image::Rgb([c.r, c.g, c.b])
            },
        ),
    }
}

/// The tile whose picture is drawn: the monster's where monsters are shown
/// and one stands there, else the tile's own.
pub open spec fn shown_tile(config: Config, data: TileData) -> int {
    if config.show_monsters && data.monster is Some {
        MONSTER_TILES + data.monster->0
    } else {
        data.tile as int
    }
}

/// The palette index that is drawn for a pixel of a tile: black becomes
/// olive on a tile that is trigger and target, green on a trigger, maroon on
/// a target, where secrets are shown.
pub open spec fn highlighted(config: Config, data: TileData, index: u8) -> u8 {
    if index == Color::Black.palette_index() && config.show_secrets {
        if data.is_trigger && data.is_target {
            Color::Olive.palette_index()
        } else if data.is_trigger {
            Color::Green.palette_index()
        } else if data.is_target {
            Color::Maroon.palette_index()
        } else {
            index
        }
    } else {
        index
    }
}

/// The palette index of pixel `(col, row)` of the picture of what stands on
/// a tile: nothing is black, and so is darkness, which the atlas is not asked
/// for.
pub open spec fn tile_pixel(
    config: Config,
    atlas: TileAtlas,
    data: TileData,
    col: int,
    row: int,
) -> u8 {
    if data.tile == 0 {
        Color::Black.palette_index()
    } else if shown_tile(config, data) == DARKNESS_TILE {
        highlighted(config, data, Color::Black.palette_index())
    } else {
        highlighted(config, data, atlas.pixel_at(shown_tile(config, data), row, col))
    }
}

/// The least `x` of the placements, which are not none.
pub open spec fn least_x(s: Seq<Placement>) -> int
    decreases s.len(),
{
    if s.len() <= 1 {
        s[0].x as int
    } else if s.last().x < least_x(s.drop_last()) {
        s.last().x as int
    } else {
        least_x(s.drop_last())
    }
}

pub open spec fn least_y(s: Seq<Placement>) -> int
    decreases s.len(),
{
    if s.len() <= 1 {
        s[0].y as int
    } else if s.last().y < least_y(s.drop_last()) {
        s.last().y as int
    } else {
        least_y(s.drop_last())
    }
}

pub open spec fn greatest_x(s: Seq<Placement>) -> int
    decreases s.len(),
{
    if s.len() <= 1 {
        s[0].x as int
    } else if s.last().x > greatest_x(s.drop_last()) {
        s.last().x as int
    } else {
        greatest_x(s.drop_last())
    }
}

pub open spec fn greatest_y(s: Seq<Placement>) -> int
    decreases s.len(),
{
    if s.len() <= 1 {
        s[0].y as int
    } else if s.last().y > greatest_y(s.drop_last()) {
        s.last().y as int
    } else {
        greatest_y(s.drop_last())
    }
}

/// The placements lie on the grid up to whole turns, at most 64 steps outside.
pub open spec fn all_fit(s: Seq<Placement>) -> bool {
    forall|i: int| 0 <= i < s.len() ==> (#[trigger] s[i]).fits() && s[i].within(64)
}

/// The block that is drawn at a place of the layout, if there is one.
pub open spec fn block_drawn(s: Seq<Placement>, x: int, y: int) -> Option<(u8, u8)> {
    if exists|i: int| 0 <= i < s.len() && (#[trigger] s[i]).x == x && s[i].y == y {
        Some(((x % 8) as u8, (y % 8) as u8))
    } else {
        None
    }
}

/// The smallest rectangle of places that holds every placement.
#[derive(Copy, Clone, PartialEq, Eq, Structural, Debug)]
pub struct Extent {
    pub x0: i32,
    pub y0: i32,
    pub x1: i32,
    pub y1: i32,
}

/// The smallest rectangle of places that holds every placement.
pub open spec fn extent_of(ground: Seq<Placement>) -> Extent {
    Extent {
        x0: least_x(ground) as i32,
        y0: least_y(ground) as i32,
        x1: greatest_x(ground) as i32,
        y1: greatest_y(ground) as i32,
    }
}

impl Unfolding {
    /// The smallest rectangle of places that holds every drawn block.
    pub fn extent(&self) -> (e: Extent)
        requires
            self.ground@.len() > 0,
            all_fit(self.ground@),
        ensures
            e == extent_of(self.ground@),
            -64 <= e.x0 <= e.x1 <= 71,
            -64 <= e.y0 <= e.y1 <= 71,
    {
        let first = self.ground[0];
        let mut e = Extent { x0: first.x, y0: first.y, x1: first.x, y1: first.y };
        let mut i: usize = 1;
        assert(self.ground@.take(1).len() == 1);
        assert(self.ground@.take(1)[0] == first);
        while i < self.ground.len()
            invariant
                1 <= i <= self.ground@.len(),
                all_fit(self.ground@),
                e.x0 == least_x(self.ground@.take(i as int)),
                e.y0 == least_y(self.ground@.take(i as int)),
                e.x1 == greatest_x(self.ground@.take(i as int)),
                e.y1 == greatest_y(self.ground@.take(i as int)),
                -64 <= e.x0 <= e.x1 <= 71,
                -64 <= e.y0 <= e.y1 <= 71,
            decreases self.ground@.len() - i,
        {
            let p = self.ground[i];
            proof {
                let next = self.ground@.take(i + 1);
                assert(next.drop_last() =~= self.ground@.take(i as int));
                assert(next.last() == p);
            }
            if p.x < e.x0 {
                e.x0 = p.x;
            }
            if p.y < e.y0 {
                e.y0 = p.y;
            }
            if p.x > e.x1 {
                e.x1 = p.x;
            }
            if p.y > e.y1 {
                e.y1 = p.y;
            }
            i += 1;
        }
        assert(self.ground@.take(i as int) =~= self.ground@);
        e
    }
}

/// The palette index of pixel `(col, row)` of the picture of what stands on a
/// tile.
pub fn pixel_of_tile(
    config: &Config,
    atlas: &TileAtlas,
    data: &TileData,
    col: usize,
    row: usize,
) -> (index: u8)
    requires
        atlas.wf(),
        data.tile < 512,
        data.monster matches Some(kind) ==> kind < 256,
        col < 16,
        row < 16,
    ensures
        index == tile_pixel(*config, *atlas, *data, col as int, row as int),
        index < 16,
{
    if data.tile == 0 {
        return Color::Black.index();
    }
    let shown: usize = if config.show_monsters {
        match data.monster {
            Some(kind) => MONSTER_TILES + kind,
            None => data.tile,
        }
    } else {
        data.tile
    };
    let mut index: u8 = if shown == DARKNESS_TILE {
        Color::Black.index()
    } else {
        atlas.pixel(shown, row, col)
    };
    if index == Color::Black.index() && config.show_secrets {
        if data.is_trigger && data.is_target {
            index = Color::Olive.index();
        } else if data.is_trigger {
            index = Color::Green.index();
        } else if data.is_target {
            index = Color::Maroon.index();
        }
    }
    index
}

impl Dungeon {
    /// The colour of pixel `(x, y)` of level `z`, counted from the corner of
    /// the level on the grid.
    pub open spec fn pixel_at(&self, config: Config, atlas: TileAtlas, x: int, y: int, z: int) -> Rgb {
        palette(tile_pixel(config, atlas, self.tile_at(x / 16, y / 16, z), x % 16, y % 16))
    }

    /// The colour of a pixel of the level's picture for a layout: the pixel
    /// of the block that is drawn at its place, black where there is none.
    pub open spec fn level_pixel(
        &self,
        config: Config,
        atlas: TileAtlas,
        ground: Seq<Placement>,
        level: int,
        px: int,
        py: int,
    ) -> Rgb {
        let e = extent_of(ground);
        match block_drawn(ground, e.x0 + px / 176, e.y0 + py / 176) {
            Some((u, v)) => self.pixel_at(
                config,
                atlas,
                u * 176 + px % 176,
                v * 176 + py % 176,
                level,
            ),
            None => palette(Color::Black.palette_index()),
        }
    }

    /// The raster is the picture of the level for the layout that draws
    /// these placements.
    pub open spec fn draws(
        &self,
        config: Config,
        atlas: TileAtlas,
        ground: Seq<Placement>,
        level: int,
        raster: Raster,
    ) -> bool {
        let e = extent_of(ground);
        &&& raster.width == (e.x1 - e.x0 + 1) * 176
        &&& raster.height == (e.y1 - e.y0 + 1) * 176
        &&& raster.rows@.len() == raster.height
        &&& forall|py: int|
            0 <= py < raster.height ==> (#[trigger] raster.rows@[py])@.len() == raster.width
        &&& forall|px: int, py: int|
            0 <= px < raster.width && 0 <= py < raster.height ==> #[trigger] raster.rows@[py]@[px]
                == self.level_pixel(config, atlas, ground, level, px, py)
    }

    /// The picture of the level for the layout that draws these placements,
    /// row by row.
    pub open spec fn picture(
        &self,
        config: Config,
        atlas: TileAtlas,
        ground: Seq<Placement>,
        level: int,
    ) -> Seq<Seq<Rgb>> {
        let e = extent_of(ground);
        Seq::new(
            ((e.y1 - e.y0 + 1) * 176) as nat,
            |py: int|
                Seq::new(
                    ((e.x1 - e.x0 + 1) * 176) as nat,
                    |px: int| self.level_pixel(config, atlas, ground, level, px, py),
                ),
        )
    }

    /// The colour of pixel `(x, y)` of level `z`.
    pub fn pixel(&self, config: &Config, atlas: &TileAtlas, x: u32, y: u32, z: i32) -> (c: Rgb)
        requires
            self.wf(),
            atlas.wf(),
        ensures
            c == self.pixel_at(*config, *atlas, x as int, y as int, z as int),
    {
        let data = self.tile((x / 16) as i32, (y / 16) as i32, z);
        proof {
            self.lemma_tile_bounds(x as int / 16, y as int / 16, z as int);
        }
        rgb_of(pixel_of_tile(config, atlas, &data, (x % 16) as usize, (y % 16) as usize))
    }

    /// Every tile of a level has a picture in the atlas, and so has every
    /// monster.
    pub proof fn lemma_tile_bounds(&self, x: int, y: int, z: int)
        requires
            self.wf(),
        ensures
            self.tile_at(x, y, z).tile < 512,
            self.tile_at(x, y, z).monster matches Some(kind) ==> kind < 256,
    {
        reveal(Dungeon::tile_at);
        let data = self.tile_at(x, y, z);
        if 0 <= z < 8 && 0 <= x < 88 && 0 <= y < 88 {
            let block = self.block_at(x / 11, y / 11, z);
            assert(self.floors@[z].rooms_in_range());
            assert(self.floors@[z].block_at((x / 11) % 8, (y / 11) % 8) == block);
            if let crate::block::DungeonBlock::Room(n) = block {
                let room = self.rooms@[n as int];
                assert(room.wf());
                let at = ((x % 11) as u8, (y % 11) as u8);
                if room.monsters@.contains_key(at) {
                    let i = room.monsters.keys@.index_of(at);
                    assert(room.monsters.values@[i] < 256);
                }
            }
        }
    }

    /// Draws one row of the picture of a level.
    fn render_row(
        &self,
        config: &Config,
        atlas: &TileAtlas,
        layout: &Unfolding,
        level: i32,
        e: Extent,
        width: u32,
        py: u32,
    ) -> (row: Vec<Rgb>)
        requires
            self.wf(),
            atlas.wf(),
            layout.ground@.len() > 0,
            all_fit(layout.ground@),
            e == extent_of(layout.ground@),
            -64 <= e.x0 <= e.x1 <= 71,
            -64 <= e.y0 <= e.y1 <= 71,
            width == (e.x1 - e.x0 + 1) * 176,
            py < (e.y1 - e.y0 + 1) * 176,
        ensures
            row@.len() == width,
            forall|px: int|
                0 <= px < width ==> #[trigger] row@[px] == self.level_pixel(
                    *config,
                    *atlas,
                    layout.ground@,
                    level as int,
                    px,
                    py as int,
                ),
    {
        let mut row: Vec<Rgb> = Vec::new();
        let by: i32 = e.y0 + (py / BLOCK_PIXELS) as i32;
        let oy: u32 = py % BLOCK_PIXELS;
        let mut px: u32 = 0;
        while px < width
            invariant
                px <= width,
                self.wf(),
                atlas.wf(),
                all_fit(layout.ground@),
                e == extent_of(layout.ground@),
                -64 <= e.x0 <= e.x1 <= 71,
                -64 <= e.y0 <= e.y1 <= 71,
                width == (e.x1 - e.x0 + 1) * 176,
                by == e.y0 + py as int / 176,
                oy == py as int % 176,
                row@.len() == px,
                forall|k: int|
                    0 <= k < px ==> #[trigger] row@[k] == self.level_pixel(
                        *config,
                        *atlas,
                        layout.ground@,
                        level as int,
                        k,
                        py as int,
                    ),
            decreases width - px,
        {
            let bx: i32 = e.x0 + (px / BLOCK_PIXELS) as i32;
            let ox: u32 = px % BLOCK_PIXELS;
            let c = match layout.physical(bx, by) {
                Some((u, v)) => {
                    proof {
                        let i = choose|i: int|
                            0 <= i < layout.ground@.len() && #[trigger] layout.ground@[i] == (
                            Placement { u, v, x: bx, y: by }) && forall|k: int|
                                0 <= k < i ==> !((#[trigger] layout.ground@[k]).x == bx
                                    && layout.ground@[k].y == by);
                        assert(layout.ground@[i].fits());
                        assert(layout.ground@[i].x == bx && layout.ground@[i].y == by);
                        assert(u == bx as int % 8 && v == by as int % 8);
                    }
                    self.pixel(
                        config,
                        atlas,
                        u as u32 * BLOCK_PIXELS + ox,
                        v as u32 * BLOCK_PIXELS + oy,
                        level,
                    )
                },
                None => rgb_of(Color::Black.index()),
            };
            row.push(c);
            px += 1;
        }
        row
    }

    /// Draws the picture of a level for a layout of its blocks.
    pub fn render(
        &self,
        config: &Config,
        atlas: &TileAtlas,
        layout: &Unfolding,
        level: i32,
    ) -> (raster: Raster)
        requires
            self.wf(),
            atlas.wf(),
            layout.ground@.len() > 0,
            all_fit(layout.ground@),
        ensures
            self.draws(*config, *atlas, layout.ground@, level as int, raster),
            raster.wf(),
            raster.width <= 23936,
            raster.height <= 23936,
    {
        let e = layout.extent();
        let width: u32 = ((e.x1 - e.x0 + 1) as u32) * BLOCK_PIXELS;
        let height: u32 = ((e.y1 - e.y0 + 1) as u32) * BLOCK_PIXELS;
        let mut rows: Vec<Vec<Rgb>> = Vec::new();
        let mut py: u32 = 0;
        while py < height
            invariant
                py <= height,
                self.wf(),
                atlas.wf(),
                layout.ground@.len() > 0,
                all_fit(layout.ground@),
                e == extent_of(layout.ground@),
                -64 <= e.x0 <= e.x1 <= 71,
                -64 <= e.y0 <= e.y1 <= 71,
                width == (e.x1 - e.x0 + 1) * 176,
                height == (e.y1 - e.y0 + 1) * 176,
                rows@.len() == py,
                forall|k: int| 0 <= k < py ==> (#[trigger] rows@[k])@.len() == width,
                forall|j: int, k: int|
                    0 <= j < width && 0 <= k < py ==> #[trigger] rows@[k]@[j] == self.level_pixel(
                        *config,
                        *atlas,
                        layout.ground@,
                        level as int,
                        j,
                        k,
                    ),
            decreases height - py,
        {
            let row = self.render_row(config, atlas, layout, level, e, width, py);
            rows.push(row);
            py += 1;
        }
        Raster { width, height, rows }
    }

    /// Draws the picture of a level: laid out without wrapping where the
    /// configuration asks for it, else as it lies on the grid.
    pub fn draw_level_map(&self, config: &Config, atlas: &TileAtlas, level: i32) -> (img: LevelImage)
        requires
            self.wf(),
            atlas.wf(),
            0 <= level < 8,
            config.unfold ==> has_ground(self.floors@[level as int]),
        ensures
            image_rows(img) == self.picture(
                *config,
                *atlas,
                if config.unfold {
                    unfolded(self.floors@[level as int]).ground
                } else {
                    Unfolding::grid()
                },
                level as int,
            ),
    {
        let layout = if config.unfold {
            match unfold(&self.floors[level as usize]) {
                Some(layout) => layout,
                None => Unfolding::identity(),
            }
        } else {
            Unfolding::identity()
        };
        let raster = self.render(config, atlas, &layout, level);
        proof {
            let e = extent_of(layout.ground@);
            let w = raster.width as int;
            let h = raster.height as int;
            assert(w <= 23936 && h <= 23936);
            assert(3 * w * h <= 0xffff_ffff) by (nonlinear_arith)
                requires
                    0 <= w <= 23936,
                    0 <= h <= 23936,
            ;
            let picture = self.picture(*config, *atlas, layout.ground@, level as int);
            assert(raster.pixels().len() == picture.len());
            assert forall|py: int| 0 <= py < picture.len() implies raster.pixels()[py]
                == picture[py] by {
                assert(raster.rows@[py]@.len() == raster.width);
                assert forall|px: int| 0 <= px < raster.width implies raster.rows@[py]@[px]
                    == picture[py][px] by {
                    assert(raster.rows@[py]@[px] == self.level_pixel(
                        *config,
                        *atlas,
                        layout.ground@,
                        level as int,
                        px,
                        py,
                    ));
                }
                assert(raster.rows@[py]@ =~= picture[py]);
            }
            assert(raster.pixels() =~= picture);
        }
        image_of(&raster)
    }

    /// Whether a level has a block that is no wall, which a layout without
    /// wrapping needs.
    pub fn can_unfold(&self, level: i32) -> (b: bool)
        requires
            self.wf(),
            0 <= level < 8,
        ensures
            b == has_ground(self.floors@[level as int]),
    {
        find_seed(&self.floors[level as usize]).is_some()
    }
}

} // verus!
