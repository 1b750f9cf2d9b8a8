use u5dungeon::combat_map::{merge_coords, CombatMap};
use u5dungeon::error::DecodeError;

fn blank_record() -> Vec<u8> {
    vec![0u8; 352]
}

#[test]
fn record_of_wrong_length_is_refused() {
    assert_eq!(
        CombatMap::decode(&vec![0u8; 351]).err(),
        Some(DecodeError { expected: 352, actual: 351 })
    );
    assert_eq!(
        CombatMap::decode(&vec![0u8; 353]).err(),
        Some(DecodeError { expected: 352, actual: 353 })
    );
    assert_eq!(CombatMap::decode(&[]).err(), Some(DecodeError { expected: 352, actual: 0 }));
    assert!(CombatMap::decode(&blank_record()).is_ok());
}

#[test]
fn area_rows_are_copied_in_order() {
    let mut rec = blank_record();
    for y in 0..11 {
        for x in 0..11 {
            rec[32 * y + x] = (y * 11 + x) as u8;
        }
        // What follows a row must not leak into the area.
        for k in 11..32 {
            rec[32 * y + k] = 0xEE;
        }
    }
    // Keep the monster and trigger slots empty.
    for i in 0..16 {
        rec[171 + i] = 0;
    }
    for i in 0..8 {
        rec[11 + i] = 0;
    }
    let room = CombatMap::decode(&rec).unwrap();
    assert_eq!(room.area.len(), 11);
    for y in 0..11 {
        assert_eq!(room.area[y].len(), 11);
        for x in 0..11 {
            assert_eq!(room.area[y][x], (y * 11 + x) as u8);
        }
    }
    assert_eq!(room.monsters.len(), 0);
    assert_eq!(room.triggers.len(), 0);
}

#[test]
fn default_room_is_empty() {
    let room = CombatMap::default();
    assert_eq!(room.area, [[0u8; 11]; 11]);
    assert_eq!(room.monsters.len(), 0);
    assert_eq!(room.triggers.len(), 0);
    assert_eq!(room.player_east, [[0u8; 2]; 6]);
}

#[test]
fn entry_points_keep_their_order() {
    let mut rec = blank_record();
    for i in 0..6 {
        rec[43 + i] = 10 + i as u8; // east x
        rec[49 + i] = 20 + i as u8; // east y
        rec[75 + i] = 30 + i as u8; // west x
        rec[81 + i] = 40 + i as u8; // west y
        rec[107 + i] = 50 + i as u8; // south x
        rec[113 + i] = 60 + i as u8; // south y
        rec[139 + i] = 70 + i as u8; // north x
        rec[145 + i] = 80 + i as u8; // north y
    }
    let room = CombatMap::decode(&rec).unwrap();
    for i in 0..6 {
        assert_eq!(room.player_east[i], [10 + i as u8, 20 + i as u8]);
        assert_eq!(room.player_west[i], [30 + i as u8, 40 + i as u8]);
        assert_eq!(room.player_south[i], [50 + i as u8, 60 + i as u8]);
        assert_eq!(room.player_north[i], [70 + i as u8, 80 + i as u8]);
    }
}

#[test]
fn merge_coords_pairs_by_index() {
    let merged: [[u8; 2]; 3] = merge_coords::<3>(&[1, 2, 3], &[9, 8, 7]);
    assert_eq!(merged, [[1, 9], [2, 8], [3, 7]]);
}

#[test]
fn monsters_of_occupied_slots_only() {
    let mut rec = blank_record();
    // Slot 0: type 7 at (3, 4). Slot 1: empty, though it has a coordinate.
    rec[171] = 7;
    rec[203] = 3;
    rec[235] = 4;
    rec[172] = 0;
    rec[204] = 5;
    rec[236] = 6;
    // Slot 15: type 255 at (10, 10).
    rec[171 + 15] = 255;
    rec[203 + 15] = 10;
    rec[235 + 15] = 10;
    let room = CombatMap::decode(&rec).unwrap();
    assert_eq!(room.monsters.len(), 2);
    assert_eq!(room.monsters.get(3, 4), Some(&7));
    assert_eq!(room.monsters.get(10, 10), Some(&255));
    assert_eq!(room.monsters.get(5, 6), None);
    assert!(!room.monsters.contains_key(0, 0));
}

#[test]
fn sixteen_monsters_on_sixteen_tiles() {
    let mut rec = blank_record();
    for i in 0..16 {
        rec[171 + i] = 1 + i as u8;
        rec[203 + i] = (i % 11) as u8;
        rec[235 + i] = (i / 11) as u8;
    }
    let room = CombatMap::decode(&rec).unwrap();
    assert_eq!(room.monsters.len(), 16);
    for i in 0..16usize {
        assert_eq!(room.monsters.get((i % 11) as u8, (i / 11) as u8), Some(&(1 + i)));
    }
}

#[test]
fn later_monster_slot_wins_a_shared_tile() {
    let mut rec = blank_record();
    rec[171] = 7;
    rec[203] = 3;
    rec[235] = 4;
    rec[172] = 9;
    rec[204] = 3;
    rec[236] = 4;
    let room = CombatMap::decode(&rec).unwrap();
    assert_eq!(room.monsters.len(), 1);
    assert_eq!(room.monsters.get(3, 4), Some(&9));
}

#[test]
fn trigger_with_two_targets() {
    let mut rec = blank_record();
    rec[11] = 0x45; // new tile of slot 0
    rec[267] = 1; // trigger x
    rec[275] = 2; // trigger y
    rec[299] = 3; // first target x
    rec[307] = 4; // first target y
    rec[331] = 5; // second target x
    rec[339] = 6; // second target y
    let room = CombatMap::decode(&rec).unwrap();
    assert_eq!(room.triggers.len(), 1);
    let targets = room.triggers.get(1, 2).unwrap();
    assert_eq!(targets.len(), 2);
    assert_eq!(targets.get(3, 4), Some(&0x45));
    assert_eq!(targets.get(5, 6), Some(&0x45));
    assert!(room.has_target(3, 4));
    assert!(room.has_target(5, 6));
    assert!(!room.has_target(1, 2));
}

#[test]
fn trigger_with_one_target_twice() {
    let mut rec = blank_record();
    rec[11 + 7] = 9; // new tile of slot 7
    rec[267 + 7] = 8;
    rec[275 + 7] = 8;
    rec[299 + 7] = 2;
    rec[307 + 7] = 3;
    rec[331 + 7] = 2;
    rec[339 + 7] = 3;
    let room = CombatMap::decode(&rec).unwrap();
    let targets = room.triggers.get(8, 8).unwrap();
    assert_eq!(targets.len(), 1);
    assert_eq!(targets.get(2, 3), Some(&9));
}

#[test]
fn trigger_slot_without_new_tile_is_skipped() {
    let mut rec = blank_record();
    rec[11] = 0;
    rec[267] = 1;
    rec[275] = 2;
    rec[299] = 3;
    rec[307] = 4;
    let room = CombatMap::decode(&rec).unwrap();
    assert_eq!(room.triggers.len(), 0);
    assert!(!room.triggers.contains_key(1, 2));
    assert!(!room.has_target(3, 4));
}
