use u5dungeon::atlas::TileAtlas;
use u5dungeon::block::DungeonBlock;
use u5dungeon::combat_map::CombatMap;
use u5dungeon::coord_map::CoordMap;
use u5dungeon::dungeon::{Dungeon, DungeonKind, TileData};
use u5dungeon::floor::DungeonFloor;
use u5dungeon::palette::{rgb_of, Rgb};
use u5dungeon::render::{pixel_of_tile, Config, Extent};
use u5dungeon::unfold::{Placement, Unfolding};

const BLACK: Rgb = Rgb { r: 0, g: 0, b: 0 };

/// An atlas in which every pixel of tile `t` has the index `t % 15 + 1`, but
/// the first pixel of each tile, which is black.
fn atlas() -> TileAtlas {
    let mut pixels = vec![0u8; 131072];
    for tile in 0..512usize {
        for offset in 1..256usize {
            pixels[tile * 256 + offset] = (tile % 15 + 1) as u8;
        }
    }
    TileAtlas { pixels }
}

fn dungeon() -> Dungeon {
    let mut floor = DungeonFloor([[DungeonBlock::Corridor; 8]; 8]);
    floor.0[0][0] = DungeonBlock::Room(2);
    floor.0[3][3] = DungeonBlock::Wall;
    let mut d = Dungeon {
        kind: DungeonKind::Cave,
        floors: vec![floor; 8],
        rooms: vec![CombatMap::default(); 16],
    };
    for y in 0..11 {
        for x in 0..11 {
            d.rooms[2].area[y][x] = 68;
        }
    }
    d.rooms[2].area[9][9] = 255;
    d.rooms[2].monsters.insert(1, 1, 30);
    let mut targets: CoordMap<u8> = CoordMap::new();
    targets.insert(3, 3, 1);
    targets.insert(2, 2, 1);
    d.rooms[2].triggers.insert(2, 2, targets);
    d.rooms[2].triggers.insert(4, 4, CoordMap::new());
    d
}

fn all_on() -> Config {
    Config { show_monsters: true, show_secrets: true, unfold: true }
}

fn all_off() -> Config {
    Config { show_monsters: false, show_secrets: false, unfold: false }
}

#[test]
fn config_from_the_switches() {
    assert_eq!(
        Config::from_flags(false, false, false),
        Config { show_monsters: true, show_secrets: false, unfold: true }
    );
    assert_eq!(
        Config::from_flags(true, true, true),
        Config { show_monsters: false, show_secrets: true, unfold: false }
    );
}

#[test]
fn pixel_of_a_plain_tile() {
    let data = TileData { tile: 68, monster: None, is_trigger: false, is_target: false };
    let a = atlas();
    assert_eq!(pixel_of_tile(&all_off(), &a, &data, 1, 0), (68 % 15 + 1) as u8);
    assert_eq!(pixel_of_tile(&all_off(), &a, &data, 0, 0), 0);
    assert_eq!(pixel_of_tile(&all_on(), &a, &data, 0, 0), 0);
}

#[test]
fn pixel_of_nothing_and_of_darkness() {
    let a = atlas();
    let nothing = TileData { tile: 0, monster: Some(3), is_trigger: true, is_target: true };
    assert_eq!(pixel_of_tile(&all_on(), &a, &nothing, 5, 5), 0);
    let dark = TileData { tile: 255, monster: None, is_trigger: false, is_target: false };
    assert_eq!(pixel_of_tile(&all_on(), &a, &dark, 5, 5), 0);
    let dark_target = TileData { tile: 255, monster: None, is_trigger: false, is_target: true };
    assert_eq!(pixel_of_tile(&all_on(), &a, &dark_target, 5, 5), 4);
    assert_eq!(pixel_of_tile(&all_off(), &a, &dark_target, 5, 5), 0);
}

#[test]
fn monster_takes_the_place_of_its_tile() {
    let a = atlas();
    let data = TileData { tile: 68, monster: Some(30), is_trigger: false, is_target: false };
    assert_eq!(pixel_of_tile(&all_on(), &a, &data, 3, 3), ((256 + 30) % 15 + 1) as u8);
    assert_eq!(pixel_of_tile(&all_off(), &a, &data, 3, 3), (68 % 15 + 1) as u8);
}

#[test]
fn secrets_colour_the_black_of_a_tile() {
    let a = atlas();
    let both = TileData { tile: 68, monster: None, is_trigger: true, is_target: true };
    let trigger = TileData { tile: 68, monster: None, is_trigger: true, is_target: false };
    let target = TileData { tile: 68, monster: None, is_trigger: false, is_target: true };
    let shown = Config { show_monsters: false, show_secrets: true, unfold: false };
    assert_eq!(pixel_of_tile(&shown, &a, &both, 0, 0), 6);
    assert_eq!(pixel_of_tile(&shown, &a, &trigger, 0, 0), 2);
    assert_eq!(pixel_of_tile(&shown, &a, &target, 0, 0), 4);
    // Only black is coloured.
    assert_eq!(pixel_of_tile(&shown, &a, &both, 1, 0), (68 % 15 + 1) as u8);
    assert_eq!(pixel_of_tile(&all_off(), &a, &both, 0, 0), 0);
}

#[test]
fn pixel_of_a_level() {
    let d = dungeon();
    let a = atlas();
    // Tile (1, 1) of the room holds a monster of type 30.
    assert_eq!(d.pixel(&all_on(), &a, 16 + 5, 16 + 5, 0), rgb_of(((256 + 30) % 15 + 1) as u8));
    assert_eq!(d.pixel(&all_off(), &a, 16 + 5, 16 + 5, 0), rgb_of((68 % 15 + 1) as u8));
    // Tile (2, 2) is trigger and target, (3, 3) a target, (4, 4) a trigger.
    assert_eq!(d.pixel(&all_on(), &a, 32, 32, 0), rgb_of(6));
    assert_eq!(d.pixel(&all_on(), &a, 48, 48, 0), rgb_of(4));
    assert_eq!(d.pixel(&all_on(), &a, 64, 64, 0), rgb_of(2));
    assert_eq!(d.pixel(&all_off(), &a, 32, 32, 0), BLACK);
    // Darkness in the room, and the wall block.
    assert_eq!(d.pixel(&all_on(), &a, 9 * 16 + 3, 9 * 16 + 3, 0), BLACK);
    assert_eq!(d.pixel(&all_on(), &a, 33 * 16 + 8, 33 * 16 + 8, 0), BLACK);
    // Floor of the cave in the middle of block (4, 4).
    assert_eq!(d.pixel(&all_on(), &a, 49 * 16 + 8, 49 * 16 + 8, 0), rgb_of(5 % 15 + 1));
    // Outside the level.
    assert_eq!(d.pixel(&all_on(), &a, 88 * 16, 0, 0), BLACK);
    assert_eq!(d.pixel(&all_on(), &a, 0, 0, 8), BLACK);
    assert_eq!(d.pixel(&all_on(), &a, u32::MAX, u32::MAX, 0), BLACK);
}

#[test]
fn extent_of_a_layout() {
    let m = Unfolding {
        ground: vec![
            Placement { u: 0, v: 2, x: 0, y: 2 },
            Placement { u: 7, v: 2, x: -1, y: 2 },
            Placement { u: 0, v: 3, x: 0, y: 3 },
        ],
        walls: Vec::new(),
    };
    assert_eq!(m.extent(), Extent { x0: -1, y0: 2, x1: 0, y1: 3 });
    assert_eq!(Unfolding::identity().extent(), Extent { x0: 0, y0: 0, x1: 7, y1: 7 });
}

#[test]
fn picture_of_a_small_layout() {
    let d = dungeon();
    let a = atlas();
    // The room block (0, 0) and, right of a gap, the block (2, 0) at place (10, 0)... 
    let m = Unfolding {
        ground: vec![
            Placement { u: 0, v: 0, x: 0, y: 0 },
            Placement { u: 2, v: 0, x: 2, y: 0 },
        ],
        walls: Vec::new(),
    };
    let raster = d.render(&all_on(), &a, &m, 0);
    assert_eq!(raster.width, 3 * 176);
    assert_eq!(raster.height, 176);
    assert_eq!(raster.rows.len(), 176);
    for row in raster.rows.iter() {
        assert_eq!(row.len(), 3 * 176);
    }
    for py in (0..176u32).step_by(7) {
        for px in (0..528u32).step_by(5) {
            let expected = if px < 176 {
                d.pixel(&all_on(), &a, px, py, 0)
            } else if px < 352 {
                BLACK
            } else {
                d.pixel(&all_on(), &a, px, py, 0)
            };
            assert_eq!(raster.rows[py as usize][px as usize], expected);
        }
    }
    assert_eq!(raster.rows[32][32], rgb_of(6));
}

#[test]
fn picture_of_a_level_on_the_grid() {
    let d = dungeon();
    let a = atlas();
    let config = Config { show_monsters: true, show_secrets: false, unfold: false };
    let img = d.draw_level_map(&config, &a, 0);
    assert_eq!(img.buffer.width(), 1408);
    assert_eq!(img.buffer.height(), 1408);
    for py in (0..1408u32).step_by(37) {
        for px in (0..1408u32).step_by(41) {
            let c = d.pixel(&config, &a, px, py, 0);
            assert_eq!(img.buffer.get_pixel(px, py).0, [c.r, c.g, c.b]);
        }
    }
    // The monster in the room, and the floor right of the wall block.
    let monster = rgb_of(((256 + 30) % 15 + 1) as u8);
    assert_eq!(img.buffer.get_pixel(16 + 5, 16 + 5).0, [monster.r, monster.g, monster.b]);
    let floor = rgb_of(5 % 15 + 1);
    assert_eq!(img.buffer.get_pixel(46 * 16 + 8, 38 * 16 + 8).0, [floor.r, floor.g, floor.b]);
}

#[test]
fn picture_of_a_level_unfolded() {
    let mut floor = DungeonFloor([[DungeonBlock::Wall; 8]; 8]);
    floor.0[2][0] = DungeonBlock::Corridor;
    floor.0[2][7] = DungeonBlock::Corridor;
    let d = Dungeon {
        kind: DungeonKind::Prison,
        floors: vec![floor; 8],
        rooms: vec![CombatMap::default(); 16],
    };
    let a = atlas();
    assert!(d.can_unfold(0));
    let img = d.draw_level_map(&all_on(), &a, 0);
    // Two blocks side by side: (7, 2) at place (-1, 2) and (0, 2) at (0, 2).
    assert_eq!(img.buffer.width(), 2 * 176);
    assert_eq!(img.buffer.height(), 176);
    let left = d.pixel(&all_on(), &a, 7 * 176 + 88, 2 * 176 + 88, 0);
    let right = d.pixel(&all_on(), &a, 88, 2 * 176 + 88, 0);
    assert_eq!(img.buffer.get_pixel(88, 88).0, [left.r, left.g, left.b]);
    assert_eq!(img.buffer.get_pixel(176 + 88, 88).0, [right.r, right.g, right.b]);
    let cobble = rgb_of(69 % 15 + 1);
    assert_eq!(img.buffer.get_pixel(88, 88).0, [cobble.r, cobble.g, cobble.b]);
    // The west edge of the left block faces a wall: it is dark.
    assert_eq!(img.buffer.get_pixel(3, 88).0, [0, 0, 0]);
}

#[test]
fn raster_pixels() {
    let d = dungeon();
    let a = atlas();
    let m = Unfolding { ground: vec![Placement { u: 0, v: 0, x: 0, y: 0 }], walls: Vec::new() };
    let raster = d.render(&all_on(), &a, &m, 0);
    assert_eq!(raster.at(32, 32), rgb_of(6));
    assert_eq!(raster.at(48, 48), rgb_of(4));
    assert_eq!(raster.at(175, 175), d.pixel(&all_on(), &a, 175, 175, 0));
}

#[test]
fn texts() {
    let mut room = CombatMap::default();
    room.area[0][0] = 5;
    room.area[0][1] = 1;
    room.area[10][10] = 255;
    let text = room.to_text();
    let lines: Vec<&str> = text.lines().collect();
    assert_eq!(lines.len(), 11);
    assert_eq!(lines[0], ".\u{224b}?????????");
    assert_eq!(lines[1], "???????????");
    assert_eq!(lines[10], "?????????? ");
    assert!(text.ends_with('\n'));
    let mut floor = DungeonFloor([[DungeonBlock::Corridor; 8]; 8]);
    floor.0[0][1] = DungeonBlock::Wall;
    floor.0[7][7] = DungeonBlock::Room(10);
    assert_eq!(
        floor.to_text(),
        ".#......\n........\n........\n........\n........\n........\n........\n.......a\n"
    );
}
