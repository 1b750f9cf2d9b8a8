use u5dungeon::block::DungeonBlock;
use u5dungeon::combat_map::CombatMap;
use u5dungeon::coord_map::CoordMap;
use u5dungeon::dungeon::{resolve_cell, Dungeon, DungeonKind, Surround, TileData};
use u5dungeon::floor::DungeonFloor;
use u5dungeon::terrain::Terrain;

fn dungeon_of(kind: DungeonKind, floor: DungeonFloor) -> Dungeon {
    Dungeon { kind, floors: vec![floor; 8], rooms: vec![CombatMap::default(); 16] }
}

fn corridors() -> DungeonFloor {
    DungeonFloor([[DungeonBlock::Corridor; 8]; 8])
}

fn plain(tile: usize) -> TileData {
    TileData { tile, monster: None, is_trigger: false, is_target: false }
}

fn open_around() -> Surround {
    Surround {
        north: DungeonBlock::Corridor,
        east: DungeonBlock::Corridor,
        west: DungeonBlock::Corridor,
        south: DungeonBlock::Corridor,
    }
}

#[test]
fn kind_tiles() {
    assert_eq!(DungeonKind::Prison.wall_tile(), 79);
    assert_eq!(DungeonKind::Cave.wall_tile(), 77);
    assert_eq!(DungeonKind::Mine.wall_tile(), 77);
    assert_eq!(DungeonKind::Prison.doorway_tile(), 184);
    assert_eq!(DungeonKind::Cave.doorway_tile(), 5);
    assert_eq!(DungeonKind::Prison.floor_tile(), 69);
    assert_eq!(DungeonKind::Mine.floor_tile(), 5);
}

#[test]
fn terrain_codes() {
    assert_eq!(Terrain::DeepWater.code(), 1);
    assert_eq!(Terrain::Grass.code(), 5);
    assert_eq!(Terrain::Ladder.code(), 200);
    assert_eq!(Terrain::Fountain.code(), 216);
    assert_eq!(Terrain::Trapdoor.code(), 140);
    assert_eq!(Terrain::Darkness.code(), 255);
    assert_eq!(Terrain::Chest.code(), 257);
    assert_eq!(Terrain::Unknown.code(), 258);
    assert_eq!(Terrain::from_code(0), Terrain::Unknown);
    assert_eq!(Terrain::from_code(5), Terrain::Grass);
    assert_eq!(Terrain::from_code(35), Terrain::Road);
    assert_eq!(Terrain::from_code(255), Terrain::Darkness);
    assert_eq!(Terrain::Grass.symbol(), '.');
    assert_eq!(Terrain::DeepWater.symbol(), '\u{224b}');
    assert_eq!(Terrain::Chest.symbol(), '?');
    assert_eq!(Terrain::Darkness.symbol(), ' ');
}

#[test]
fn outside_the_level_is_nothing() {
    let d = dungeon_of(DungeonKind::Cave, corridors());
    let nothing = plain(0);
    assert_eq!(d.tile(0, 0, -1), nothing);
    assert_eq!(d.tile(0, 0, 8), nothing);
    assert_eq!(d.tile(-1, 0, 0), nothing);
    assert_eq!(d.tile(88, 0, 0), nothing);
    assert_eq!(d.tile(0, -1, 0), nothing);
    assert_eq!(d.tile(0, 88, 7), nothing);
    assert_eq!(d.tile(i32::MIN, i32::MAX, i32::MAX), nothing);
    assert_eq!(TileData::default(), nothing);
    assert_ne!(d.tile(87, 87, 7), nothing);
}

#[test]
fn wall_block_among_corridors() {
    let mut floor = corridors();
    floor.0[3][3] = DungeonBlock::Wall;
    let d = dungeon_of(DungeonKind::Cave, floor);
    assert_eq!(d.tile(33, 33, 0), plain(255));
    assert_eq!(d.tile(38, 38, 0), plain(255));
    // Block (0, 0) has no wall beside it: two steps in from its corner lies floor.
    assert_eq!(d.tile(2, 2, 0), plain(DungeonKind::Cave.floor_tile()));
    // Block (4, 3) lies east of the wall: its west edge is dark, the next
    // column is wall, the third is floor.
    assert_eq!(d.tile(44, 38, 0), plain(255));
    assert_eq!(d.tile(45, 38, 0), plain(77));
    assert_eq!(d.tile(46, 38, 0), plain(5));
    let p = dungeon_of(DungeonKind::Prison, floor);
    assert_eq!(p.tile(45, 38, 0), plain(79));
    assert_eq!(p.tile(46, 38, 0), plain(69));
}

#[test]
fn floor_one_step_clear_of_walls() {
    // All corridors but the block (3, 3): the tile (49, 49), in the middle of
    // block (4, 4), touches no wall.
    let mut floor = corridors();
    floor.0[3][3] = DungeonBlock::Wall;
    let d = dungeon_of(DungeonKind::Mine, floor);
    assert_eq!(d.tile(49, 49, 0).tile, DungeonKind::Mine.floor_tile());
    assert_eq!(d.tile(33, 33, 0).tile, 255);
}

#[test]
fn room_block_shows_the_room() {
    let mut floor = corridors();
    floor.0[0][0] = DungeonBlock::Room(5);
    let mut d = dungeon_of(DungeonKind::Cave, floor);
    d.rooms[5].area[2][2] = 7;
    d.rooms[5].area[3][1] = 9;
    for level in 0..8 {
        assert_eq!(d.tile(2, 2, level), plain(7));
        assert_eq!(d.tile(1, 3, level), plain(9));
        assert_eq!(d.tile(3, 1, level), plain(0));
    }
}

#[test]
fn room_block_shows_monsters_and_mechanisms() {
    let mut floor = corridors();
    floor.0[2][1] = DungeonBlock::Room(15);
    let mut d = dungeon_of(DungeonKind::Cave, floor);
    d.rooms[15].area[4][3] = 68;
    d.rooms[15].monsters.insert(3, 4, 17);
    let mut targets: CoordMap<u8> = CoordMap::new();
    targets.insert(6, 6, 68);
    targets.insert(3, 4, 68);
    d.rooms[15].triggers.insert(5, 5, targets);
    // Block (1, 2) starts at tile (11, 22).
    assert_eq!(
        d.tile(11 + 3, 22 + 4, 0),
        TileData { tile: 68, monster: Some(17), is_trigger: false, is_target: true }
    );
    assert_eq!(
        d.tile(11 + 5, 22 + 5, 0),
        TileData { tile: 0, monster: None, is_trigger: true, is_target: false }
    );
    assert_eq!(
        d.tile(11 + 6, 22 + 6, 0),
        TileData { tile: 0, monster: None, is_trigger: false, is_target: true }
    );
}

#[test]
fn neighbours_wrap_round_the_grid() {
    let mut floor = corridors();
    floor.0[7][0] = DungeonBlock::Wall; // north of (0, 0), round the edge
    floor.0[0][7] = DungeonBlock::Wall; // west of (0, 0), round the edge
    let d = dungeon_of(DungeonKind::Cave, floor);
    assert_eq!(d.tile(5, 0, 0), plain(255));
    assert_eq!(d.tile(5, 1, 0), plain(77));
    assert_eq!(d.tile(0, 5, 0), plain(255));
    assert_eq!(d.tile(1, 5, 0), plain(77));
    assert_eq!(d.tile(5, 5, 0), plain(5));
}

#[test]
fn edges_that_face_a_room() {
    let mut around = open_around();
    around.north = DungeonBlock::Room(1);
    let cave = DungeonKind::Cave;
    let prison = DungeonKind::Prison;
    let block = DungeonBlock::Corridor;
    assert_eq!(resolve_cell(cave, block, &around, 4, 0), 77);
    assert_eq!(resolve_cell(cave, block, &around, 5, 0), 5);
    assert_eq!(resolve_cell(prison, block, &around, 5, 0), 184);
    assert_eq!(resolve_cell(prison, block, &around, 6, 0), 79);
    around = open_around();
    around.east = DungeonBlock::Room(0);
    assert_eq!(resolve_cell(prison, block, &around, 10, 5), 184);
    assert_eq!(resolve_cell(prison, block, &around, 10, 4), 79);
    around = open_around();
    around.west = DungeonBlock::Room(0);
    assert_eq!(resolve_cell(prison, block, &around, 0, 5), 184);
    assert_eq!(resolve_cell(prison, block, &around, 0, 9), 79);
    around = open_around();
    around.south = DungeonBlock::Room(0);
    assert_eq!(resolve_cell(prison, block, &around, 5, 10), 184);
    assert_eq!(resolve_cell(prison, block, &around, 0, 10), 79);
}

#[test]
fn corners_of_an_open_cell() {
    let around = open_around();
    let cave = DungeonKind::Cave;
    let block = DungeonBlock::Corridor;
    assert_eq!(resolve_cell(cave, block, &around, 0, 0), 255);
    assert_eq!(resolve_cell(cave, block, &around, 10, 10), 255);
    assert_eq!(resolve_cell(cave, block, &around, 0, 10), 255);
    assert_eq!(resolve_cell(cave, block, &around, 1, 1), 77);
    assert_eq!(resolve_cell(cave, block, &around, 1, 0), 77);
    assert_eq!(resolve_cell(cave, block, &around, 9, 10), 77);
    assert_eq!(resolve_cell(cave, block, &around, 2, 0), 5);
    assert_eq!(resolve_cell(cave, block, &around, 2, 2), 5);
    assert_eq!(resolve_cell(cave, block, &around, 0, 5), 5);
}

#[test]
fn features_in_the_middle() {
    let around = open_around();
    let cave = DungeonKind::Cave;
    assert_eq!(resolve_cell(cave, DungeonBlock::UpLadder, &around, 5, 5), 200);
    assert_eq!(resolve_cell(cave, DungeonBlock::DownLadder, &around, 5, 5), 201);
    assert_eq!(resolve_cell(cave, DungeonBlock::UpDownLadder, &around, 5, 5), 204);
    assert_eq!(resolve_cell(cave, DungeonBlock::Chest(3), &around, 5, 5), 257);
    assert_eq!(resolve_cell(cave, DungeonBlock::OpenChest, &around, 5, 5), 257);
    assert_eq!(resolve_cell(cave, DungeonBlock::Fountain(1), &around, 5, 5), 216);
    assert_eq!(resolve_cell(cave, DungeonBlock::Trap(2), &around, 5, 5), 140);
    assert_eq!(resolve_cell(cave, DungeonBlock::Door, &around, 5, 5), 184);
    assert_eq!(resolve_cell(cave, DungeonBlock::SecretDoor, &around, 5, 5), 78);
    assert_eq!(resolve_cell(cave, DungeonBlock::Corridor, &around, 5, 5), 5);
    assert_eq!(resolve_cell(cave, DungeonBlock::Unknown, &around, 5, 5), 5);
    assert_eq!(resolve_cell(cave, DungeonBlock::UpLadder, &around, 5, 4), 5);
}

#[test]
fn door_in_a_wall_between_walls() {
    let mut around = open_around();
    around.north = DungeonBlock::Wall;
    around.south = DungeonBlock::Wall;
    let prison = DungeonKind::Prison;
    // The spine runs down the middle column, rows 2 to 8.
    assert_eq!(resolve_cell(prison, DungeonBlock::Door, &around, 5, 2), 79);
    assert_eq!(resolve_cell(prison, DungeonBlock::Door, &around, 5, 8), 79);
    assert_eq!(resolve_cell(prison, DungeonBlock::Door, &around, 5, 5), 184);
    assert_eq!(resolve_cell(prison, DungeonBlock::Door, &around, 4, 5), 69);
    assert_eq!(resolve_cell(prison, DungeonBlock::SecretDoor, &around, 5, 3), 79);
    assert_eq!(resolve_cell(prison, DungeonBlock::SecretDoor, &around, 5, 5), 78);
    assert_eq!(resolve_cell(prison, DungeonBlock::Corridor, &around, 5, 3), 69);
    // Rows 0 and 10 are dark beside the walls, rows 1 and 9 are wall.
    assert_eq!(resolve_cell(prison, DungeonBlock::Door, &around, 5, 0), 255);
    assert_eq!(resolve_cell(prison, DungeonBlock::Door, &around, 5, 1), 79);
    // With walls on all four sides there is no spine but the centre.
    around.east = DungeonBlock::Wall;
    around.west = DungeonBlock::Wall;
    assert_eq!(resolve_cell(prison, DungeonBlock::Door, &around, 5, 3), 69);
    assert_eq!(resolve_cell(prison, DungeonBlock::Door, &around, 5, 5), 184);
}

#[test]
fn force_fields() {
    let mut around = open_around();
    around.east = DungeonBlock::Wall;
    around.west = DungeonBlock::Wall;
    let cave = DungeonKind::Cave;
    assert_eq!(resolve_cell(cave, DungeonBlock::Field(0), &around, 5, 5), 488);
    assert_eq!(resolve_cell(cave, DungeonBlock::Field(1), &around, 2, 5), 489);
    assert_eq!(resolve_cell(cave, DungeonBlock::Field(6), &around, 8, 5), 490);
    assert_eq!(resolve_cell(cave, DungeonBlock::Field(15), &around, 5, 5), 491);
    assert_eq!(resolve_cell(cave, DungeonBlock::Field(3), &around, 5, 4), 5);
    // Without walls beside it a field shows at the centre only.
    let open = open_around();
    assert_eq!(resolve_cell(cave, DungeonBlock::Field(2), &open, 5, 5), 490);
    assert_eq!(resolve_cell(cave, DungeonBlock::Field(2), &open, 4, 5), 5);
}
