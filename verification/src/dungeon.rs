use vstd::prelude::*;
use crate::block::DungeonBlock;
use crate::combat_map::CombatMap;
use crate::floor::DungeonFloor;
use crate::terrain::Terrain;

verus! {

/// Tile number that stands for darkness: it is drawn black, the atlas is not
/// asked.
pub const DARKNESS_TILE: usize = 255;

/// Tile number of the picture with both ladders, which the atlas makes itself.
pub const LADDERS_TILE: usize = 204;

/// Tile number of the weakest force field; the three stronger ones follow it.
pub const FIELD_TILE: usize = 488;

/// Tiles along one side of a level.
pub const LEVEL_SIDE: i32 = 88;

/// What a dungeon is built of, which picks its wall, floor and doorway tiles.
#[derive(Copy, Clone, PartialEq, Eq, Structural, Debug)]
pub enum DungeonKind {
    Cave,
    Mine,
    Prison,
}

impl DungeonKind {
    pub open spec fn wall(self) -> usize {
        if self is Prison {
            Terrain::BrickWall.tile_id() as usize
        } else {
            Terrain::StoneWall.tile_id() as usize
        }
    }

    pub open spec fn doorway(self) -> usize {
        if self is Prison {
            Terrain::Door.tile_id() as usize
        } else {
            Terrain::Grass.tile_id() as usize
        }
    }

    pub open spec fn floor(self) -> usize {
        if self is Prison {
            (Terrain::Cobble.tile_id() + 1) as usize
        } else {
            Terrain::Grass.tile_id() as usize
        }
    }

    pub fn wall_tile(self) -> (t: usize)
        ensures
            t == self.wall(),
    {
        match self {
            DungeonKind::Prison => Terrain::BrickWall.code(),
            _ => Terrain::StoneWall.code(),
        }
    }

    pub fn doorway_tile(self) -> (t: usize)
        ensures
            t == self.doorway(),
    {
        match self {
            DungeonKind::Prison => Terrain::Door.code(),
            _ => Terrain::Grass.code(),
        }
    }

    pub fn floor_tile(self) -> (t: usize)
        ensures
            t == self.floor(),
    {
        match self {
            DungeonKind::Prison => Terrain::Cobble.code() + 1,
            _ => Terrain::Grass.code(),
        }
    }
}

/// What stands at one tile of a level.
#[derive(Copy, Clone, PartialEq, Eq, Debug)]
pub struct TileData {
    /// Tile number; 0 where there is nothing to draw.
    pub tile: usize,
    /// Type of the monster that stands on the tile.
    pub monster: Option<usize>,
    pub is_trigger: bool,
    pub is_target: bool,
}

impl TileData {
    /// The record of a place outside the level.
    pub open spec fn absent() -> TileData {
        TileData { tile: 0, monster: None, is_trigger: false, is_target: false }
    }

    /// A tile with no monster and no mechanism on it.
    pub open spec fn plain(tile: usize) -> TileData {
        TileData { tile, monster: None, is_trigger: false, is_target: false }
    }

    pub fn of_tile(tile: usize) -> (t: TileData)
        ensures
            t == TileData::plain(tile),
    {
        TileData { tile, monster: None, is_trigger: false, is_target: false }
    }
}

impl Default for TileData {
    fn default() -> (t: TileData)
        ensures
            t == TileData::absent(),
    {
        TileData { tile: 0, monster: None, is_trigger: false, is_target: false }
    }
}

/// The blocks on the four sides of a block, across the wrapping edges.
#[derive(Copy, Clone, Debug)]
pub struct Surround {
    pub north: DungeonBlock,
    pub east: DungeonBlock,
    pub west: DungeonBlock,
    pub south: DungeonBlock,
}

impl Surround {
    /// A wall block lies on a side from which the tile `(lx, ly)` of the cell
    /// is `d` steps away.
    pub open spec fn wall_at_distance(self, lx: int, ly: int, d: int) -> bool {
        ||| self.north is Wall && ly == d
        ||| self.east is Wall && 10 - lx == d
        ||| self.west is Wall && lx == d
        ||| self.south is Wall && 10 - ly == d
    }

    /// The tile lies on an edge that faces a room, off the middle of that edge.
    pub open spec fn seals_room(self, lx: int, ly: int) -> bool {
        ||| self.north is Room && ly == 0 && lx != 5
        ||| self.east is Room && lx == 10 && ly != 5
        ||| self.west is Room && lx == 0 && ly != 5
        ||| self.south is Room && ly == 10 && lx != 5
    }

    /// The tile is the middle of an edge that faces a room.
    pub open spec fn opens_to_room(self, lx: int, ly: int) -> bool {
        ||| self.north is Room && ly == 0 && lx == 5
        ||| self.east is Room && lx == 10 && ly == 5
        ||| self.west is Room && lx == 0 && ly == 5
        ||| self.south is Room && ly == 10 && lx == 5
    }

    /// The tile belongs to the spine of the cell: its centre, or the middle
    /// line between two facing walls that are not matched by the other two.
    pub open spec fn center_wall(self, lx: int, ly: int) -> bool {
        ||| lx == 5 && ly == 5
        ||| self.north is Wall && self.south is Wall && !(self.east is Wall && self.west is Wall)
            && lx == 5 && 2 <= ly <= 8
        ||| self.west is Wall && self.east is Wall && !(self.north is Wall && self.south is Wall)
            && ly == 5 && 2 <= lx <= 8
    }
}

/// How deep the tile lies in the corner nearest to it: the larger of its
/// distances to the nearest vertical and the nearest horizontal edge.
pub open spec fn corner_depth(lx: int, ly: int) -> int {
    let vert = if ly <= 10 - ly {
        ly
    } else {
        10 - ly
    };
    let horz = if lx <= 10 - lx {
        lx
    } else {
        10 - lx
    };
    if vert >= horz {
        vert
    } else {
        horz
    }
}

/// The tile that marks the middle of a block of this variant, if it has one.
pub open spec fn center_feature(block: DungeonBlock) -> Option<usize> {
    match block {
        DungeonBlock::UpLadder => Some(Terrain::Ladder.tile_id() as usize),
        DungeonBlock::DownLadder => Some((Terrain::Ladder.tile_id() + 1) as usize),
        DungeonBlock::UpDownLadder => Some(LADDERS_TILE),
        DungeonBlock::Chest(_) => Some(Terrain::Chest.tile_id() as usize),
        DungeonBlock::OpenChest => Some(Terrain::Chest.tile_id() as usize),
        DungeonBlock::Fountain(_) => Some(Terrain::Fountain.tile_id() as usize),
        DungeonBlock::Trap(_) => Some(Terrain::Trapdoor.tile_id() as usize),
        DungeonBlock::Door => Some(Terrain::Door.tile_id() as usize),
        DungeonBlock::SecretDoor => Some(Terrain::SecretDoor.tile_id() as usize),
        _ => None,
    }
}

/// The tile inside the cell, away from walls, rooms and corners: floor, the
/// wall round a door, the feature in the middle, or a force field.
pub open spec fn inner_tile(
    kind: DungeonKind,
    block: DungeonBlock,
    around: Surround,
    lx: int,
    ly: int,
) -> usize {
    if block is Field && around.center_wall(lx, ly) {
        (FIELD_TILE + force_of(block)) as usize
    } else if lx == 5 && ly == 5 && center_feature(block) is Some {
        center_feature(block)->0
    } else if (block is Door || block is SecretDoor) && around.center_wall(lx, ly) {
        kind.wall()
    } else {
        kind.floor()
    }
}

/// The tile at `(lx, ly)` of a cell whose block is neither a room nor a wall.
/// The first rule that applies decides.
pub open spec fn cell_tile(
    kind: DungeonKind,
    block: DungeonBlock,
    around: Surround,
    lx: int,
    ly: int,
) -> usize {
    if around.wall_at_distance(lx, ly, 0) {
        DARKNESS_TILE
    } else if around.wall_at_distance(lx, ly, 1) {
        kind.wall()
    } else if around.seals_room(lx, ly) {
        kind.wall()
    } else if around.opens_to_room(lx, ly) {
        kind.doorway()
    } else if corner_depth(lx, ly) == 0 {
        DARKNESS_TILE
    } else if corner_depth(lx, ly) == 1 {
        kind.wall()
    } else {
        inner_tile(kind, block, around, lx, ly)
    }
}

/// What a room shows at `(lx, ly)`.
pub open spec fn room_tile(room: CombatMap, lx: int, ly: int) -> TileData {
    TileData {
        tile: room.area_at(lx, ly) as usize,
        monster: room.monster_at(lx as u8, ly as u8),
        is_trigger: room.is_trigger(lx as u8, ly as u8),
        is_target: room.is_target(lx as u8, ly as u8),
    }
}

/// One dungeon: eight levels and the sixteen rooms that their room blocks
/// name.
#[derive(Clone, Debug)]
pub struct Dungeon {
    pub kind: DungeonKind,
    pub floors: Vec<DungeonFloor>,
    pub rooms: Vec<CombatMap>,
}

impl Dungeon {
    pub open spec fn wf(&self) -> bool {
        &&& self.floors@.len() == 8
        &&& self.rooms@.len() == 16
        &&& forall|z: int| 0 <= z < 8 ==> (#[trigger] self.floors@[z]).rooms_in_range()
        &&& forall|n: int| 0 <= n < 16 ==> (#[trigger] self.rooms@[n]).wf()
    }

    /// The block of level `z` in column `bx` of row `by`, both taken modulo 8.
    pub open spec fn block_at(&self, bx: int, by: int, z: int) -> DungeonBlock {
        self.floors@[z].block_at(bx % 8, by % 8)
    }

    /// The four blocks round the block `(bx, by)` of level `z`.
    pub open spec fn around(&self, bx: int, by: int, z: int) -> Surround {
        Surround {
            north: self.block_at(bx, by + 7, z),
            east: self.block_at(bx + 1, by, z),
            west: self.block_at(bx + 7, by, z),
            south: self.block_at(bx, by + 1, z),
        }
    }

    /// What stands at tile `(x, y)` of level `z`.
    #[verifier::opaque]
    pub open spec fn tile_at(&self, x: int, y: int, z: int) -> TileData {
        if !(0 <= z < 8 && 0 <= x < 88 && 0 <= y < 88) {
            TileData::absent()
        } else {
            let block = self.block_at(x / 11, y / 11, z);
            match block {
                DungeonBlock::Room(n) => room_tile(self.rooms@[n as int], x % 11, y % 11),
                DungeonBlock::Wall => TileData::plain(DARKNESS_TILE),
                _ => TileData::plain(
                    cell_tile(self.kind, block, self.around(x / 11, y / 11, z), x % 11, y % 11),
                ),
            }
        }
    }

    /// What stands at tile `(x, y)` of level `z`; nothing outside the level.
    pub fn tile(&self, x: i32, y: i32, z: i32) -> (t: TileData)
        requires
            self.wf(),
        ensures
            t == self.tile_at(x as int, y as int, z as int),
            !(0 <= z < 8 && 0 <= x < 88 && 0 <= y < 88) ==> t == TileData::absent(),
            0 <= z < 8 && 0 <= x < 88 && 0 <= y < 88 ==> (self.block_at(
                x as int / 11,
                y as int / 11,
                z as int,
            ) matches DungeonBlock::Room(n) ==> t.tile == self.rooms@[n as int].area_at(
                x as int % 11,
                y as int % 11,
            )),
    {
        reveal(Dungeon::tile_at);
        if z < 0 || z >= 8 {
            return TileData::default();
        }
        if x < 0 || x >= LEVEL_SIDE || y < 0 || y >= LEVEL_SIDE {
            return TileData::default();
        }
        let block_x: usize = (x / 11) as usize;
        let block_y: usize = (y / 11) as usize;
        let lx: u8 = (x % 11) as u8;
        let ly: u8 = (y % 11) as u8;
        let floor = &self.floors[z as usize];
        let block = floor.block(block_x, block_y);

        if let DungeonBlock::Room(n) = block {
            let room = &self.rooms[n as usize];
            let tile: usize = room.area[ly as usize][lx as usize] as usize;
            let monster = match room.monsters.get(lx, ly) {
                Some(m) => Some(*m),
                None => None,
            };
            let is_trigger = room.triggers.contains_key(lx, ly);
            let is_target = room.has_target(lx, ly);
            return TileData { tile, monster, is_trigger, is_target };
        }
        if let DungeonBlock::Wall = block {
            return TileData::of_tile(DARKNESS_TILE);
        }
        let around = Surround {
            north: floor.block(block_x, (block_y + 7) % 8),
            east: floor.block((block_x + 1) % 8, block_y),
            west: floor.block((block_x + 7) % 8, block_y),
            south: floor.block(block_x, (block_y + 1) % 8),
        };
        assert(around == self.around(x as int / 11, y as int / 11, z as int));
        TileData::of_tile(resolve_cell(self.kind, block, &around, lx, ly))
    }
}

/// The tile at `(lx, ly)` of a cell whose block is neither a room nor a wall.
pub fn resolve_cell(
    kind: DungeonKind,
    block: DungeonBlock,
    around: &Surround,
    lx: u8,
    ly: u8,
) -> (tile: usize)
    requires
        lx <= 10,
        ly <= 10,
    ensures
        tile == cell_tile(kind, block, *around, lx as int, ly as int),
{
    let n_wall = matches!(around.north, DungeonBlock::Wall);
    let e_wall = matches!(around.east, DungeonBlock::Wall);
    let w_wall = matches!(around.west, DungeonBlock::Wall);
    let s_wall = matches!(around.south, DungeonBlock::Wall);
    let n_room = matches!(around.north, DungeonBlock::Room(_));
    let e_room = matches!(around.east, DungeonBlock::Room(_));
    let w_room = matches!(around.west, DungeonBlock::Room(_));
    let s_room = matches!(around.south, DungeonBlock::Room(_));

    // Distances from the edges of the cell.
    let dw: u8 = lx;
    let de: u8 = 10 - lx;
    let dn: u8 = ly;
    let ds: u8 = 10 - ly;
    let vert_min: u8 = if dn <= ds {
        dn
    } else {
        ds
    };
    let horz_min: u8 = if de <= dw {
        de
    } else {
        dw
    };
    let depth: u8 = if vert_min >= horz_min {
        vert_min
    } else {
        horz_min
    };
    assert(depth == corner_depth(lx as int, ly as int));

    if (n_wall && dn == 0) || (e_wall && de == 0) || (w_wall && dw == 0) || (s_wall && ds == 0) {
        return DARKNESS_TILE;
    }
    if (n_wall && dn == 1) || (e_wall && de == 1) || (w_wall && dw == 1) || (s_wall && ds == 1) {
        return kind.wall_tile();
    }
    if (n_room && dn == 0 && de != 5) || (e_room && de == 0 && dn != 5) || (w_room && dw == 0 && dn
        != 5) || (s_room && ds == 0 && de != 5) {
        return kind.wall_tile();
    }
    if (n_room && dn == 0 && de == 5) || (e_room && de == 0 && dn == 5) || (w_room && dw == 0 && dn
        == 5) || (s_room && ds == 0 && de == 5) {
        return kind.doorway_tile();
    }
    if depth == 0 {
        return DARKNESS_TILE;
    }
    if depth == 1 {
        return kind.wall_tile();
    }
    let is_center_wall = (lx == 5 && ly == 5) || (n_wall && s_wall && (!e_wall || !w_wall) && lx
        == 5 && 2 <= ly && ly < 9) || (w_wall && e_wall && (!n_wall || !s_wall) && ly == 5 && 2
        <= lx && lx < 9);
    resolve_inner(kind, block, is_center_wall, lx == 5 && ly == 5)
}

/// The tile inside the cell, given whether it lies on the spine and whether it
/// is the centre.
fn resolve_inner(
    kind: DungeonKind,
    block: DungeonBlock,
    is_center_wall: bool,
    is_center: bool,
) -> (tile: usize)
    ensures
        tile == (if block is Field && is_center_wall {
            (FIELD_TILE + force_of(block)) as usize
        } else if is_center && center_feature(block) is Some {
            center_feature(block)->0
        } else if (block is Door || block is SecretDoor) && is_center_wall {
            kind.wall()
        } else {
            kind.floor()
        }),
{
    let mut tile: usize = kind.floor_tile();
    if matches!(block, DungeonBlock::Door | DungeonBlock::SecretDoor) && is_center_wall {
        tile = kind.wall_tile();
    }
    if is_center {
        match block {
            DungeonBlock::UpLadder => {
                tile = Terrain::Ladder.code();
            },
            DungeonBlock::DownLadder => {
                tile = Terrain::Ladder.code() + 1;
            },
            DungeonBlock::UpDownLadder => {
                tile = LADDERS_TILE;
            },
            DungeonBlock::Chest(_) => {
                tile = Terrain::Chest.code();
            },
            DungeonBlock::OpenChest => {
                tile = Terrain::Chest.code();
            },
            DungeonBlock::Fountain(_) => {
                tile = Terrain::Fountain.code();
            },
            DungeonBlock::Trap(_) => {
                tile = Terrain::Trapdoor.code();
            },
            DungeonBlock::Door => {
                tile = Terrain::Door.code();
            },
            DungeonBlock::SecretDoor => {
                tile = Terrain::SecretDoor.code();
            },
            _ => {},
        }
    }
    if let DungeonBlock::Field(force) = block {
        let low: u8 = force & 0x3;
        assert(low == force % 4) by (bit_vector)
            requires
                low == force & 0x3,
        ;
        if is_center_wall {
            tile = FIELD_TILE + low as usize;
        }
    }
    tile
}

/// Strength of a force field block, modulo 4.
pub open spec fn force_of(block: DungeonBlock) -> int {
    match block {
        DungeonBlock::Field(strength) => strength as int % 4,
        _ => 0,
    }
}

} // verus!
