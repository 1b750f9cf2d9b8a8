use u5dungeon::block::{hex_digit_of, DungeonBlock};
use u5dungeon::dungeon::DungeonKind;
use u5dungeon::error::DecodeError;
use u5dungeon::floor::{decode_floors, DungeonFloor};
use u5dungeon::game::{assemble_dungeons, decode_rooms, dungeon_kind, dungeon_name};

#[test]
fn block_of_each_high_nibble() {
    assert_eq!(DungeonBlock::from_byte(0x00), DungeonBlock::Corridor);
    assert_eq!(DungeonBlock::from_byte(0x0F), DungeonBlock::Corridor);
    assert_eq!(DungeonBlock::from_byte(0x10), DungeonBlock::UpDownLadder);
    assert_eq!(DungeonBlock::from_byte(0x20), DungeonBlock::DownLadder);
    assert_eq!(DungeonBlock::from_byte(0x30), DungeonBlock::UpDownLadder);
    assert_eq!(DungeonBlock::from_byte(0x4A), DungeonBlock::Chest(10));
    assert_eq!(DungeonBlock::from_byte(0x53), DungeonBlock::Fountain(3));
    assert_eq!(DungeonBlock::from_byte(0x6F), DungeonBlock::Trap(15));
    assert_eq!(DungeonBlock::from_byte(0x75), DungeonBlock::OpenChest);
    assert_eq!(DungeonBlock::from_byte(0x87), DungeonBlock::Field(7));
    assert_eq!(DungeonBlock::from_byte(0x91), DungeonBlock::Unknown);
    assert_eq!(DungeonBlock::from_byte(0xA5), DungeonBlock::Room(5));
    assert_eq!(DungeonBlock::from_byte(0xB1), DungeonBlock::Wall);
    assert_eq!(DungeonBlock::from_byte(0xC2), DungeonBlock::Wall);
    assert_eq!(DungeonBlock::from_byte(0xD0), DungeonBlock::SecretDoor);
    assert_eq!(DungeonBlock::from_byte(0xE0), DungeonBlock::Door);
    assert_eq!(DungeonBlock::from_byte(0xFC), DungeonBlock::Room(12));
    assert_eq!(DungeonBlock::from(0xA5u8), DungeonBlock::Room(5));
}

#[test]
fn block_symbols() {
    assert_eq!(DungeonBlock::Corridor.symbol(), '.');
    assert_eq!(DungeonBlock::UpLadder.symbol(), '<');
    assert_eq!(DungeonBlock::DownLadder.symbol(), '>');
    assert_eq!(DungeonBlock::UpDownLadder.symbol(), '\u{2194}');
    assert_eq!(DungeonBlock::Chest(1).symbol(), '$');
    assert_eq!(DungeonBlock::Wall.symbol(), '#');
    assert_eq!(DungeonBlock::Room(0).symbol(), '0');
    assert_eq!(DungeonBlock::Room(11).symbol(), 'b');
    assert_eq!(DungeonBlock::Room(15).symbol(), 'f');
    assert_eq!(hex_digit_of(9), '9');
    assert_eq!(hex_digit_of(16), '?');
}

#[test]
fn floor_is_read_row_by_row() {
    let mut bytes = vec![0u8; 64];
    bytes[0] = 0xB0;
    bytes[1] = 0xA3;
    bytes[8] = 0xE0;
    bytes[63] = 0x42;
    let floor = DungeonFloor::decode(&bytes).unwrap();
    assert_eq!(floor.0[0][0], DungeonBlock::Wall);
    assert_eq!(floor.0[0][1], DungeonBlock::Room(3));
    assert_eq!(floor.0[1][0], DungeonBlock::Door);
    assert_eq!(floor.0[7][7], DungeonBlock::Chest(2));
    assert_eq!(floor.0[4][4], DungeonBlock::Corridor);
    assert_eq!(floor.block(1, 0), DungeonBlock::Room(3));
}

#[test]
fn floor_of_wrong_length_is_refused() {
    assert_eq!(
        DungeonFloor::decode(&vec![0u8; 63]).err(),
        Some(DecodeError { expected: 64, actual: 63 })
    );
    assert_eq!(
        DungeonFloor::decode(&vec![0u8; 65]).err(),
        Some(DecodeError { expected: 64, actual: 65 })
    );
}

#[test]
fn eight_floors_from_512_bytes() {
    let mut bytes = vec![0u8; 512];
    for z in 0..8 {
        bytes[z * 64 + z] = 0xB0;
    }
    let floors = decode_floors(&bytes).unwrap();
    assert_eq!(floors.len(), 8);
    for z in 0..8 {
        for x in 0..8 {
            let expected = if x == z { DungeonBlock::Wall } else { DungeonBlock::Corridor };
            assert_eq!(floors[z].0[0][x], expected);
        }
    }
    assert_eq!(
        decode_floors(&vec![0u8; 511]).err(),
        Some(DecodeError { expected: 512, actual: 511 })
    );
    assert_eq!(
        decode_floors(&vec![0u8; 4096]).err(),
        Some(DecodeError { expected: 512, actual: 4096 })
    );
}

#[test]
fn sixteen_rooms_from_their_records() {
    let mut bytes = vec![0u8; 16 * 352];
    for n in 0..16 {
        bytes[n * 352] = n as u8 + 1;
    }
    let rooms = decode_rooms(&bytes).unwrap();
    assert_eq!(rooms.len(), 16);
    for n in 0..16 {
        assert_eq!(rooms[n].area[0][0], n as u8 + 1);
    }
    assert_eq!(
        decode_rooms(&vec![0u8; 352]).err(),
        Some(DecodeError { expected: 5632, actual: 352 })
    );
}

#[test]
fn dungeon_table() {
    let names = ["Deceit", "Despise", "Destard", "Wrong", "Covetous", "Shame", "Hythloth", "Doom"];
    let kinds = [
        DungeonKind::Prison,
        DungeonKind::Cave,
        DungeonKind::Cave,
        DungeonKind::Prison,
        DungeonKind::Prison,
        DungeonKind::Mine,
        DungeonKind::Mine,
        DungeonKind::Cave,
    ];
    for i in 0..8 {
        assert_eq!(dungeon_name(i), names[i]);
        assert_eq!(dungeon_kind(i), kinds[i]);
    }
    assert_eq!(dungeon_name(8), "");
}

#[test]
fn dungeons_from_the_two_files() {
    let mut grids = vec![0u8; 4096];
    let mut records = vec![0u8; 39424];
    // Dungeon 2, level 3, block (1, 0) is room 4.
    grids[2 * 512 + 3 * 64 + 1] = 0xA4;
    // The rooms of dungeon 2 are the second set of sixteen records.
    records[(16 + 4) * 352 + 32 * 2 + 2] = 7;
    // Dungeon 0, room 0.
    records[0] = 9;
    // Dungeon 7, room 15: the last record.
    records[(6 * 16 + 15) * 352 + 32 * 10 + 10] = 11;
    let dungeons = assemble_dungeons(&grids, &records).unwrap();
    assert_eq!(dungeons.len(), 8);
    for d in 0..8 {
        assert_eq!(dungeons[d].floors.len(), 8);
        assert_eq!(dungeons[d].rooms.len(), 16);
        assert_eq!(dungeons[d].kind, dungeon_kind(d));
    }
    assert_eq!(dungeons[2].floors[3].0[0][1], DungeonBlock::Room(4));
    assert_eq!(dungeons[2].rooms[4].area[2][2], 7);
    assert_eq!(dungeons[2].tile(11 + 2, 2, 3).tile, 7);
    assert_eq!(dungeons[0].rooms[0].area[0][0], 9);
    assert_eq!(dungeons[7].rooms[15].area[10][10], 11);
    // The second dungeon has no records: its rooms are empty.
    for n in 0..16 {
        assert_eq!(dungeons[1].rooms[n].area, [[0u8; 11]; 11]);
    }
}

#[test]
fn files_of_wrong_length_are_refused() {
    let grids = vec![0u8; 4096];
    let records = vec![0u8; 39424];
    assert_eq!(
        assemble_dungeons(&grids[..4095], &records).err(),
        Some(DecodeError { expected: 4096, actual: 4095 })
    );
    assert_eq!(
        assemble_dungeons(&grids, &records[..39423]).err(),
        Some(DecodeError { expected: 39424, actual: 39423 })
    );
    assert_eq!(
        assemble_dungeons(&[], &[]).err(),
        Some(DecodeError { expected: 4096, actual: 0 })
    );
}
