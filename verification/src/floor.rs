use vstd::prelude::*;
use crate::block::DungeonBlock;
use crate::error::DecodeError;

verus! {

/// Bytes of one packed level grid.
pub const FLOOR_BYTES: usize = 64;

/// Levels of one dungeon.
pub const FLOOR_COUNT: usize = 8;

/// One level of a dungeon: 8 rows of 8 blocks. Both axes wrap around.
#[derive(Copy, Clone, Debug)]
pub struct DungeonFloor(pub [[DungeonBlock; 8]; 8]);

impl DungeonFloor {
    /// The block in column `x` of row `y`.
    pub open spec fn block_at(self, x: int, y: int) -> DungeonBlock {
        self.0[y][x]
    }

    /// The floor's blocks are those that the 64 bytes stand for, row by row.
    pub open spec fn holds(self, bytes: Seq<u8>) -> bool {
        forall|x: int, y: int|
            0 <= x < 8 && 0 <= y < 8 ==> #[trigger] self.block_at(x, y) == DungeonBlock::of_byte(
                bytes[y * 8 + x],
            )
    }

    /// Every room block names one of the sixteen rooms.
    pub open spec fn rooms_in_range(self) -> bool {
        forall|x: int, y: int|
            0 <= x < 8 && 0 <= y < 8 ==> (#[trigger] self.block_at(x, y) matches DungeonBlock::Room(
                n,
            ) ==> n < 16)
    }

    pub fn block(&self, x: usize, y: usize) -> (b: DungeonBlock)
        requires
            x < 8,
            y < 8,
        ensures
            b == self.block_at(x as int, y as int),
    {
        self.0[y][x]
    }

    /// Reads one packed level grid.
    pub fn decode(bytes: &[u8]) -> (r: Result<DungeonFloor, DecodeError>)
        ensures
            bytes@.len() == 64 <==> r is Ok,
            r matches Ok(floor) ==> floor.holds(bytes@) && floor.rooms_in_range(),
            r matches Err(e) ==> e == (DecodeError { expected: 64, actual: bytes.len() }),
    {
        if bytes.len() != FLOOR_BYTES {
            return Err(DecodeError { expected: FLOOR_BYTES, actual: bytes.len() });
        }
        let mut grid: [[DungeonBlock; 8]; 8] = [[DungeonBlock::Wall; 8]; 8];
        let mut y: usize = 0;
        while y < 8
            invariant
                y <= 8,
                bytes@.len() == 64,
                forall|i: int, j: int|
                    0 <= i < 8 && 0 <= j < y ==> #[trigger] grid[j][i] == DungeonBlock::of_byte(
                        bytes[j * 8 + i],
                    ),
            decreases 8 - y,
        {
            let mut row: [DungeonBlock; 8] = [DungeonBlock::Wall; 8];
            let mut x: usize = 0;
            while x < 8
                invariant
                    x <= 8,
                    y < 8,
                    bytes@.len() == 64,
                    forall|i: int|
                        0 <= i < x ==> #[trigger] row[i] == DungeonBlock::of_byte(bytes[y * 8 + i]),
                decreases 8 - x,
            {
                row[x] = DungeonBlock::from_byte(bytes[y * 8 + x]);
                x += 1;
            }
            grid[y] = row;
            y += 1;
        }
        let floor = DungeonFloor(grid);
        assert(floor.holds(bytes@)) by {
            assert forall|x: int, y: int| 0 <= x < 8 && 0 <= y < 8 implies #[trigger] floor.block_at(
                x,
                y,
            ) == DungeonBlock::of_byte(bytes[y * 8 + x]) by {
                assert(grid[y][x] == DungeonBlock::of_byte(bytes[y * 8 + x]));
            }
        }
        Ok(floor)
    }
}

/// Reads the eight level grids of one dungeon, top level first.
pub fn decode_floors(bytes: &[u8]) -> (r: Result<Vec<DungeonFloor>, DecodeError>)
    ensures
        bytes@.len() == 512 <==> r is Ok,
        r matches Ok(floors) ==> floors@.len() == 8 && forall|z: int|
            0 <= z < 8 ==> (#[trigger] floors@[z]).holds(bytes@.subrange(z * 64, z * 64 + 64))
                && floors@[z].rooms_in_range(),
        r matches Err(e) ==> e == (DecodeError { expected: 512, actual: bytes.len() }),
{
    if bytes.len() != FLOOR_BYTES * FLOOR_COUNT {
        return Err(DecodeError { expected: FLOOR_BYTES * FLOOR_COUNT, actual: bytes.len() });
    }
    let mut floors: Vec<DungeonFloor> = Vec::new();
    let mut z: usize = 0;
    while z < 8
        invariant
            z <= 8,
            bytes@.len() == 512,
            floors@.len() == z,
            forall|k: int|
                0 <= k < z ==> (#[trigger] floors@[k]).holds(bytes@.subrange(k * 64, k * 64 + 64))
                    && floors@[k].rooms_in_range(),
        decreases 8 - z,
    {
        let part = vstd::slice::slice_subrange(bytes, z * 64, z * 64 + 64);
        match DungeonFloor::decode(part) {
            Ok(floor) => {
                floors.push(floor);
            },
            Err(e) => {
                return Err(e);
            },
        }
        z += 1;
    }
    Ok(floors)
}

} // verus!
