use vstd::prelude::*;
use crate::combat_map::CombatMap;
use crate::dungeon::{Dungeon, DungeonKind};
use crate::error::DecodeError;
use crate::floor::{decode_floors, DungeonFloor};

verus! {

/// Bytes of the file with every level grid: 8 dungeons of 8 levels of 64 bytes.
pub const GRID_FILE_BYTES: usize = 4096;

/// Bytes of the file with every room record: 7 dungeons of 16 rooms of 352
/// bytes. The second dungeon has no rooms and no records.
pub const ROOM_FILE_BYTES: usize = 39424;

/// Index of the dungeon that has no rooms in the room file.
pub const ROOMLESS_DUNGEON: usize = 1;

/// What the dungeon with this index is built of.
pub open spec fn kind_of(index: int) -> DungeonKind {
    if index == 0 || index == 3 || index == 4 {
        DungeonKind::Prison
    } else if index == 5 || index == 6 {
        DungeonKind::Mine
    } else {
        DungeonKind::Cave
    }
}

/// Where the records of a dungeon's rooms begin in the room file: the
/// dungeons after the one without rooms move up by one.
pub open spec fn rooms_offset(index: int) -> int {
    if index < 1 {
        index * 16 * 352
    } else {
        (index - 1) * 16 * 352
    }
}

/// The dungeon with this index is the one that the two files describe.
pub open spec fn dungeon_holds(d: Dungeon, index: int, grids: Seq<u8>, records: Seq<u8>) -> bool {
    &&& d.wf()
    &&& d.kind == kind_of(index)
    &&& forall|z: int|
        0 <= z < 8 ==> (#[trigger] d.floors@[z]).holds(
            grids.subrange(index * 512 + z * 64, index * 512 + z * 64 + 64),
        )
    &&& index == 1 ==> forall|n: int|
        0 <= n < 16 ==> (#[trigger] d.rooms@[n]).is_empty()
    &&& index != 1 ==> forall|n: int|
        0 <= n < 16 ==> (#[trigger] d.rooms@[n]).holds(
            records.subrange(rooms_offset(index) + n * 352, rooms_offset(index) + n * 352 + 352),
        )
}

pub fn dungeon_kind(index: usize) -> (kind: DungeonKind)
    ensures
        kind == kind_of(index as int),
{
    match index {
        0 => DungeonKind::Prison,
        3 => DungeonKind::Prison,
        4 => DungeonKind::Prison,
        5 => DungeonKind::Mine,
        6 => DungeonKind::Mine,
        _ => DungeonKind::Cave,
    }
}

/// Name of the dungeon with this index; empty past the last.
pub fn dungeon_name(index: usize) -> (name: &'static str)
    ensures
        index == 0 ==> name@ == "Deceit"@,
        index == 1 ==> name@ == "Despise"@,
        index == 2 ==> name@ == "Destard"@,
        index == 3 ==> name@ == "Wrong"@,
        index == 4 ==> name@ == "Covetous"@,
        index == 5 ==> name@ == "Shame"@,
        index == 6 ==> name@ == "Hythloth"@,
        index == 7 ==> name@ == "Doom"@,
        index >= 8 ==> name@ == ""@,
{
    match index {
        0 => "Deceit",
        1 => "Despise",
        2 => "Destard",
        3 => "Wrong",
        4 => "Covetous",
        5 => "Shame",
        6 => "Hythloth",
        7 => "Doom",
        _ => "",
    }
}

/// Sixteen empty rooms.
fn empty_rooms() -> (rooms: Vec<CombatMap>)
    ensures
        rooms@.len() == 16,
        forall|n: int| 0 <= n < 16 ==> (#[trigger] rooms@[n]).wf() && rooms@[n].is_empty(),
{
    let mut rooms: Vec<CombatMap> = Vec::new();
    let mut n: usize = 0;
    while n < 16
        invariant
            n <= 16,
            rooms@.len() == n,
            forall|k: int| 0 <= k < n ==> (#[trigger] rooms@[k]).wf() && rooms@[k].is_empty(),
        decreases 16 - n,
    {
        rooms.push(CombatMap::empty());
        n += 1;
    }
    rooms
}

/// Reads sixteen room records that lie one after the other.
pub fn decode_rooms(bytes: &[u8]) -> (r: Result<Vec<CombatMap>, DecodeError>)
    ensures
        bytes@.len() == 16 * 352 <==> r is Ok,
        r matches Ok(rooms) ==> rooms@.len() == 16 && forall|n: int|
            0 <= n < 16 ==> (#[trigger] rooms@[n]).wf() && rooms@[n].holds(
                bytes@.subrange(n * 352, n * 352 + 352),
            ),
        r matches Err(e) ==> e == (DecodeError { expected: 5632, actual: bytes.len() }),
{
    if bytes.len() != 5632 {
        return Err(DecodeError { expected: 5632, actual: bytes.len() });
    }
    let mut rooms: Vec<CombatMap> = Vec::new();
    let mut n: usize = 0;
    while n < 16
        invariant
            n <= 16,
            bytes@.len() == 5632,
            rooms@.len() == n,
            forall|k: int|
                0 <= k < n ==> (#[trigger] rooms@[k]).wf() && rooms@[k].holds(
                    bytes@.subrange(k * 352, k * 352 + 352),
                ),
        decreases 16 - n,
    {
        match CombatMap::decode(vstd::slice::slice_subrange(bytes, n * 352, n * 352 + 352)) {
            Ok(room) => {
                rooms.push(room);
            },
            Err(e) => {
                return Err(e);
            },
        }
        n += 1;
    }
    Ok(rooms)
}

/// Builds the eight dungeons from the file of level grids and the file of
/// room records. The dungeon without records gets sixteen empty rooms, so
/// that a room block finds its room by its number in every dungeon.
pub fn assemble_dungeons(grids: &[u8], records: &[u8]) -> (r: Result<Vec<Dungeon>, DecodeError>)
    ensures
        r is Ok <==> grids@.len() == 4096 && records@.len() == 39424,
        r matches Ok(dungeons) ==> dungeons@.len() == 8 && forall|d: int|
            0 <= d < 8 ==> dungeon_holds(#[trigger] dungeons@[d], d, grids@, records@),
        r matches Err(e) ==> e == (if grids@.len() != 4096 {
            DecodeError { expected: 4096, actual: grids.len() }
        } else {
            DecodeError { expected: 39424, actual: records.len() }
        }),
{
    if grids.len() != GRID_FILE_BYTES {
        return Err(DecodeError { expected: GRID_FILE_BYTES, actual: grids.len() });
    }
    if records.len() != ROOM_FILE_BYTES {
        return Err(DecodeError { expected: ROOM_FILE_BYTES, actual: records.len() });
    }
    let mut dungeons: Vec<Dungeon> = Vec::new();
    let mut d: usize = 0;
    while d < 8
        invariant
            d <= 8,
            grids@.len() == 4096,
            records@.len() == 39424,
            dungeons@.len() == d,
            forall|k: int| 0 <= k < d ==> dungeon_holds(#[trigger] dungeons@[k], k, grids@, records@),
        decreases 8 - d,
    {
        let grid_part = vstd::slice::slice_subrange(grids, d * 512, d * 512 + 512);
        let floors: Vec<DungeonFloor> = match decode_floors(grid_part) {
            Ok(floors) => floors,
            Err(e) => {
                return Err(e);
            },
        };
        let rooms: Vec<CombatMap> = if d == ROOMLESS_DUNGEON {
            empty_rooms()
        } else {
            let start: usize = if d < ROOMLESS_DUNGEON {
                d * 5632
            } else {
                (d - 1) * 5632
            };
            let part = vstd::slice::slice_subrange(records, start, start + 5632);
            match decode_rooms(part) {
                Ok(rooms) => {
                    proof {
                        assert forall|n: int| 0 <= n < 16 implies (#[trigger] rooms@[n]).holds(
                            records@.subrange(
                                rooms_offset(d as int) + n * 352,
                                rooms_offset(d as int) + n * 352 + 352,
                            ),
                        ) by {
                            assert(part@.subrange(n * 352, n * 352 + 352) =~= records@.subrange(
                                rooms_offset(d as int) + n * 352,
                                rooms_offset(d as int) + n * 352 + 352,
                            ));
                        }
                    }
                    rooms
                },
                Err(e) => {
                    return Err(e);
                },
            }
        };
        let dungeon = Dungeon { kind: dungeon_kind(d), floors, rooms };
        proof {
            assert forall|z: int| 0 <= z < 8 implies (#[trigger] dungeon.floors@[z]).holds(
                grids@.subrange(d * 512 + z * 64, d * 512 + z * 64 + 64),
            ) by {
                assert(grid_part@.subrange(z * 64, z * 64 + 64) =~= grids@.subrange(
                    d * 512 + z * 64,
                    d * 512 + z * 64 + 64,
                ));
            }
        }
        dungeons.push(dungeon);
        d += 1;
    }
    Ok(dungeons)
}

} // verus!
