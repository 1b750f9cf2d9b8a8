use vstd::prelude::*;
use crate::coord_map::CoordMap;
use crate::error::DecodeError;

verus! {

/// Bytes of one packed room record: eleven rows of 32 bytes, each an area row
/// of 11 bytes followed by other fields and padding.
pub const RECORD_BYTES: usize = 352;

/// Terrain byte of the record at column `x` of row `y`.
pub open spec fn record_area(rec: Seq<u8>, x: int, y: int) -> u8 {
    rec[32 * y + x]
}

/// The `i`-th entry point for a party that comes from direction `dir` (0 east,
/// 1 west, 2 south, 3 north), as `[x, y]`.
pub open spec fn record_entry(rec: Seq<u8>, dir: int, i: int) -> Seq<u8> {
    seq![rec[32 * (dir + 1) + 11 + i], rec[32 * (dir + 1) + 17 + i]]
}

/// Type byte of monster slot `i`; zero for an empty slot.
pub open spec fn record_monster_kind(rec: Seq<u8>, i: int) -> u8 {
    rec[171 + i]
}

/// Where the monster of slot `i` stands.
pub open spec fn record_monster_at(rec: Seq<u8>, i: int) -> (u8, u8) {
    (rec[203 + i], rec[235 + i])
}

/// The tile that trigger slot `i` puts on its targets; zero for an empty slot.
pub open spec fn record_new_tile(rec: Seq<u8>, i: int) -> u8 {
    rec[11 + i]
}

/// Where the trigger of slot `i` lies.
pub open spec fn record_trigger_at(rec: Seq<u8>, i: int) -> (u8, u8) {
    (rec[267 + i], rec[275 + i])
}

/// First target of trigger slot `i`.
pub open spec fn record_target_one(rec: Seq<u8>, i: int) -> (u8, u8) {
    (rec[299 + i], rec[307 + i])
}

/// Second target of trigger slot `i`.
pub open spec fn record_target_two(rec: Seq<u8>, i: int) -> (u8, u8) {
    (rec[331 + i], rec[339 + i])
}

/// The monsters of the first `n` slots: each occupied slot puts its type at
/// its coordinate, a later slot over an earlier one.
pub open spec fn record_monsters(rec: Seq<u8>, n: nat) -> Map<(u8, u8), usize>
    decreases n,
{
    if n == 0 {
        Map::empty()
    } else {
        let i = n - 1;
        let before = record_monsters(rec, i as nat);
        if record_monster_kind(rec, i) != 0 {
            before.insert(record_monster_at(rec, i), record_monster_kind(rec, i) as usize)
        } else {
            before
        }
    }
}

/// What trigger slot `i` changes: its new tile at each of its two targets,
/// which are one entry where they coincide.
pub open spec fn record_targets(rec: Seq<u8>, i: int) -> Map<(u8, u8), u8> {
    Map::empty().insert(record_target_one(rec, i), record_new_tile(rec, i)).insert(
        record_target_two(rec, i),
        record_new_tile(rec, i),
    )
}

/// The triggers of the first `n` slots, a later slot over an earlier one.
pub open spec fn record_triggers(rec: Seq<u8>, n: nat) -> Map<(u8, u8), Map<(u8, u8), u8>>
    decreases n,
{
    if n == 0 {
        Map::empty()
    } else {
        let i = n - 1;
        let before = record_triggers(rec, i as nat);
        if record_new_tile(rec, i) != 0 {
            before.insert(record_trigger_at(rec, i), record_targets(rec, i))
        } else {
            before
        }
    }
}

/// Number of occupied slots among the first `n` monster slots.
pub open spec fn record_monster_count(rec: Seq<u8>, n: nat) -> nat
    decreases n,
{
    if n == 0 {
        0
    } else if record_monster_kind(rec, n - 1) != 0 {
        record_monster_count(rec, (n - 1) as nat) + 1
    } else {
        record_monster_count(rec, (n - 1) as nat)
    }
}

/// No two occupied slots among the first `n` put their monster on one tile.
pub open spec fn record_monsters_apart(rec: Seq<u8>, n: nat) -> bool {
    forall|i: int, j: int|
        0 <= i < j < n && record_monster_kind(rec, i) != 0 && record_monster_kind(rec, j) != 0
            ==> record_monster_at(rec, i) != record_monster_at(rec, j)
}

/// Where no two occupied slots share a tile, the monster map holds one entry
/// for each occupied slot, under the slot's coordinate and with the slot's
/// type as its value, and nothing else.
pub proof fn lemma_monsters_complete(rec: Seq<u8>, n: nat)
    requires
        record_monsters_apart(rec, n),
    ensures
        record_monsters(rec, n).dom().finite(),
        record_monsters(rec, n).dom().len() == record_monster_count(rec, n),
        forall|i: int|
            0 <= i < n && record_monster_kind(rec, i) != 0 ==> {
                &&& record_monsters(rec, n).contains_key(#[trigger] record_monster_at(rec, i))
                &&& record_monsters(rec, n)[record_monster_at(rec, i)] == record_monster_kind(
                    rec,
                    i,
                ) as usize
            },
        forall|k: (u8, u8)| #[trigger]
            record_monsters(rec, n).contains_key(k) ==> exists|i: int|
                0 <= i < n && record_monster_kind(rec, i) != 0 && #[trigger] record_monster_at(
                    rec,
                    i,
                ) == k,
    decreases n,
{
    broadcast use vstd::set::group_set_axioms, vstd::map::group_map_axioms;

    if n > 0 {
        let before = record_monsters(rec, (n - 1) as nat);
        lemma_monsters_complete(rec, (n - 1) as nat);
        let last = n - 1;
        if record_monster_kind(rec, last) != 0 {
            let at = record_monster_at(rec, last);
            if before.contains_key(at) {
                let i = choose|i: int|
                    0 <= i < n - 1 && record_monster_kind(rec, i) != 0 && #[trigger] record_monster_at(
                        rec,
                        i,
                    ) == at;
                assert(record_monster_at(rec, i) != record_monster_at(rec, last));
            }
            assert(record_monsters(rec, n).dom() =~= before.dom().insert(at));
            assert forall|k: (u8, u8)| #[trigger]
                record_monsters(rec, n).contains_key(k) implies exists|i: int|
                0 <= i < n && record_monster_kind(rec, i) != 0 && #[trigger] record_monster_at(
                    rec,
                    i,
                ) == k by {
                if k == at {
                    assert(record_monster_at(rec, last) == k);
                } else {
                    assert(before.contains_key(k));
                    let i = choose|i: int|
                        0 <= i < n - 1 && record_monster_kind(rec, i) != 0
                            && #[trigger] record_monster_at(rec, i) == k;
                    assert(record_monster_at(rec, i) == k);
                }
            }
        } else {
            assert forall|k: (u8, u8)| #[trigger]
                record_monsters(rec, n).contains_key(k) implies exists|i: int|
                0 <= i < n && record_monster_kind(rec, i) != 0 && #[trigger] record_monster_at(
                    rec,
                    i,
                ) == k by {
                let i = choose|i: int|
                    0 <= i < n - 1 && record_monster_kind(rec, i) != 0 && #[trigger] record_monster_at(
                        rec,
                        i,
                    ) == k;
                assert(record_monster_at(rec, i) == k);
            }
        }
    }
}

/// A trigger changes one tile where its two targets coincide, and two where
/// they differ; each gets the trigger's new tile.
pub proof fn lemma_trigger_targets(rec: Seq<u8>, i: int)
    ensures
        record_targets(rec, i).dom().finite(),
        record_targets(rec, i).dom().len() == (if record_target_one(rec, i) == record_target_two(
            rec,
            i,
        ) {
            1nat
        } else {
            2nat
        }),
        record_targets(rec, i)[record_target_one(rec, i)] == record_new_tile(rec, i),
        record_targets(rec, i)[record_target_two(rec, i)] == record_new_tile(rec, i),
{
    broadcast use vstd::set::group_set_axioms, vstd::map::group_map_axioms;

    let one = record_target_one(rec, i);
    let two = record_target_two(rec, i);
    assert(record_targets(rec, i).dom() =~= Set::<(u8, u8)>::empty().insert(one).insert(two));
}

/// One room: its terrain, where a party enters it, its monsters and its
/// triggers.
#[derive(Clone, Debug)]
pub struct CombatMap {
    /// Terrain bytes, `area[y][x]`.
    pub area: [[u8; 11]; 11],
    /// Entry points `[x, y]`, in the order in which they are tried.
    pub player_east: [[u8; 2]; 6],
    pub player_west: [[u8; 2]; 6],
    pub player_south: [[u8; 2]; 6],
    pub player_north: [[u8; 2]; 6],
    /// Monster type at each coordinate that holds a monster.
    pub monsters: CoordMap<usize>,
    /// For each trigger coordinate, the new tile of each target coordinate.
    pub triggers: CoordMap<CoordMap<u8>>,
}

impl CombatMap {
    /// The maps hold no coordinate twice, and a monster's type fits a byte.
    pub open spec fn wf(&self) -> bool {
        &&& self.monsters.wf()
        &&& forall|i: int|
            0 <= i < self.monsters.values@.len() ==> #[trigger] self.monsters.values@[i] < 256
        &&& self.triggers.wf()
        &&& forall|i: int|
            0 <= i < self.triggers.values@.len() ==> (#[trigger] self.triggers.values@[i]).wf()
    }

    /// Terrain byte at column `x` of row `y`.
    pub open spec fn area_at(&self, x: int, y: int) -> u8 {
        self.area[y][x]
    }

    /// The monster type at a coordinate, if a monster stands there.
    pub open spec fn monster_at(&self, x: u8, y: u8) -> Option<usize> {
        if self.monsters@.contains_key((x, y)) {
            Some(self.monsters@[(x, y)])
        } else {
            None
        }
    }

    pub open spec fn is_trigger(&self, x: u8, y: u8) -> bool {
        self.triggers@.contains_key((x, y))
    }

    /// Some trigger of the room changes the tile at this coordinate.
    pub open spec fn is_target(&self, x: u8, y: u8) -> bool {
        exists|k: (u8, u8)| #[trigger]
            self.triggers@.contains_key(k) && self.triggers@[k]@.contains_key((x, y))
    }

    /// Triggers with their targets, as maps all the way down.
    pub open spec fn trigger_map(&self) -> Map<(u8, u8), Map<(u8, u8), u8>> {
        deep(self.triggers)
    }

    /// The room holds what the record says.
    pub open spec fn holds(&self, rec: Seq<u8>) -> bool {
        &&& forall|x: int, y: int|
            0 <= x < 11 && 0 <= y < 11 ==> #[trigger] self.area_at(x, y) == record_area(rec, x, y)
        &&& forall|i: int| 0 <= i < 6 ==> (#[trigger] self.player_east[i])@ == record_entry(rec, 0, i)
        &&& forall|i: int| 0 <= i < 6 ==> (#[trigger] self.player_west[i])@ == record_entry(rec, 1, i)
        &&& forall|i: int|
            0 <= i < 6 ==> (#[trigger] self.player_south[i])@ == record_entry(rec, 2, i)
        &&& forall|i: int|
            0 <= i < 6 ==> (#[trigger] self.player_north[i])@ == record_entry(rec, 3, i)
        &&& self.monsters@ == record_monsters(rec, 16)
        &&& self.trigger_map() == record_triggers(rec, 8)
    }

    /// The room has terrain 0 everywhere, entry points at `[0, 0]`, no
    /// monsters and no triggers.
    pub open spec fn is_empty(&self) -> bool {
        &&& forall|x: int, y: int| 0 <= x < 11 && 0 <= y < 11 ==> #[trigger] self.area_at(x, y) == 0
        &&& forall|i: int| 0 <= i < 6 ==> (#[trigger] self.player_east[i])@ == seq![0u8, 0u8]
        &&& forall|i: int| 0 <= i < 6 ==> (#[trigger] self.player_west[i])@ == seq![0u8, 0u8]
        &&& forall|i: int| 0 <= i < 6 ==> (#[trigger] self.player_south[i])@ == seq![0u8, 0u8]
        &&& forall|i: int| 0 <= i < 6 ==> (#[trigger] self.player_north[i])@ == seq![0u8, 0u8]
        &&& self.monsters.keys@.len() == 0
        &&& self.monsters@ == Map::<(u8, u8), usize>::empty()
        &&& self.triggers.keys@.len() == 0
        &&& self.triggers@ == Map::<(u8, u8), CoordMap<u8>>::empty()
    }

    /// A room of terrain 0 with no monsters and no triggers.
    pub fn empty() -> (m: CombatMap)
        ensures
            m.wf(),
            m.is_empty(),
    {
        let m = 
        CombatMap {
            area: [[0u8; 11]; 11],
            player_east: [[0u8; 2]; 6],
            player_west: [[0u8; 2]; 6],
            player_south: [[0u8; 2]; 6],
            player_north: [[0u8; 2]; 6],
            monsters: CoordMap::new(),
            triggers: CoordMap::new(),
        };
        proof {
            assert forall|i: int| 0 <= i < 6 implies (#[trigger] m.player_east[i])@ == seq![
                0u8,
                0u8,
            ] by {
                assert(m.player_east[i]@ =~= seq![0u8, 0u8]);
            }
            assert forall|i: int| 0 <= i < 6 implies (#[trigger] m.player_west[i])@ == seq![
                0u8,
                0u8,
            ] by {
                assert(m.player_west[i]@ =~= seq![0u8, 0u8]);
            }
            assert forall|i: int| 0 <= i < 6 implies (#[trigger] m.player_south[i])@ == seq![
                0u8,
                0u8,
            ] by {
                assert(m.player_south[i]@ =~= seq![0u8, 0u8]);
            }
            assert forall|i: int| 0 <= i < 6 implies (#[trigger] m.player_north[i])@ == seq![
                0u8,
                0u8,
            ] by {
                assert(m.player_north[i]@ =~= seq![0u8, 0u8]);
            }
        }
        m
    }

    /// Whether some trigger of the room changes the tile at `(x, y)`.
    pub fn has_target(&self, x: u8, y: u8) -> (b: bool)
        requires
            self.wf(),
        ensures
            b == self.is_target(x, y),
    {
        let mut i: usize = 0;
        while i < self.triggers.values.len()
            invariant
                self.wf(),
                i <= self.triggers.values@.len(),
                forall|j: int|
                    0 <= j < i ==> !(#[trigger] self.triggers.values@[j])@.contains_key((x, y)),
            decreases self.triggers.values@.len() - i,
        {
            if self.triggers.values[i].contains_key(x, y) {
                proof {
                    let k = self.triggers.keys@[i as int];
                    assert(self.triggers.keys@.index_of(k) == i);
                    assert(self.triggers@.contains_key(k));
                }
                return true;
            }
            i += 1;
        }
        proof {
            assert forall|k: (u8, u8)| #[trigger]
                self.triggers@.contains_key(k) implies !self.triggers@[k]@.contains_key(
                (x, y),
            ) by {
                let j = self.triggers.keys@.index_of(k);
                assert(!self.triggers.values@[j]@.contains_key((x, y)));
            }
        }
        false
    }

    /// Reads one packed room record.
    pub fn decode(bytes: &[u8]) -> (r: Result<CombatMap, DecodeError>)
        ensures
            bytes@.len() == 352 <==> r is Ok,
            r matches Ok(m) ==> m.wf() && m.holds(bytes@),
            r matches Err(e) ==> e == (DecodeError { expected: 352, actual: bytes.len() }),
    {
        if bytes.len() != RECORD_BYTES {
            return Err(DecodeError { expected: RECORD_BYTES, actual: bytes.len() });
        }
        let area = read_area(bytes);
        let player_east = merge_coords::<6>(
            vstd::slice::slice_subrange(bytes, 43, 49),
            vstd::slice::slice_subrange(bytes, 49, 55),
        );
        let player_west = merge_coords::<6>(
            vstd::slice::slice_subrange(bytes, 75, 81),
            vstd::slice::slice_subrange(bytes, 81, 87),
        );
        let player_south = merge_coords::<6>(
            vstd::slice::slice_subrange(bytes, 107, 113),
            vstd::slice::slice_subrange(bytes, 113, 119),
        );
        let player_north = merge_coords::<6>(
            vstd::slice::slice_subrange(bytes, 139, 145),
            vstd::slice::slice_subrange(bytes, 145, 151),
        );
        let monsters = read_monsters(bytes);
        let triggers = read_triggers(bytes);
        let m = CombatMap {
            area,
            player_east,
            player_west,
            player_south,
            player_north,
            monsters,
            triggers,
        };
        proof {
            assert forall|i: int| 0 <= i < 6 implies (#[trigger] m.player_east[i])@
                == record_entry(bytes@, 0, i) by {
                assert(m.player_east[i]@ =~= record_entry(bytes@, 0, i));
            }
            assert forall|i: int| 0 <= i < 6 implies (#[trigger] m.player_west[i])@
                == record_entry(bytes@, 1, i) by {
                assert(m.player_west[i]@ =~= record_entry(bytes@, 1, i));
            }
            assert forall|i: int| 0 <= i < 6 implies (#[trigger] m.player_south[i])@
                == record_entry(bytes@, 2, i) by {
                assert(m.player_south[i]@ =~= record_entry(bytes@, 2, i));
            }
            assert forall|i: int| 0 <= i < 6 implies (#[trigger] m.player_north[i])@
                == record_entry(bytes@, 3, i) by {
                assert(m.player_north[i]@ =~= record_entry(bytes@, 3, i));
            }
        }
        Ok(m)
    }
}

impl Default for CombatMap {
    fn default() -> (m: CombatMap)
        ensures
            m.wf(),
            m.is_empty(),
    {
        CombatMap::empty()
    }
}

/// Pairs the `i`-th of `xs` with the `i`-th of `ys`, in their order.
pub fn merge_coords<const N: usize>(xs: &[u8], ys: &[u8]) -> (r: [[u8; 2]; N])
    requires
        xs@.len() == N,
        ys@.len() == N,
    ensures
        forall|i: int| 0 <= i < N ==> (#[trigger] r[i])[0] == xs@[i] && r[i][1] == ys@[i],
{
    let mut ret: [[u8; 2]; N] = [[0u8; 2]; N];
    let mut i: usize = 0;
    while i < N
        invariant
            i <= N,
            xs@.len() == N,
            ys@.len() == N,
            forall|j: int| 0 <= j < i ==> (#[trigger] ret[j])[0] == xs@[j] && ret[j][1] == ys@[j],
        decreases N - i,
    {
        ret[i] = [xs[i], ys[i]];
        i += 1;
    }
    ret
}

fn read_area(bytes: &[u8]) -> (area: [[u8; 11]; 11])
    requires
        bytes@.len() == 352,
    ensures
        forall|x: int, y: int|
            0 <= x < 11 && 0 <= y < 11 ==> #[trigger] area[y][x] == record_area(bytes@, x, y),
{
    let mut area: [[u8; 11]; 11] = [[0u8; 11]; 11];
    let mut y: usize = 0;
    while y < 11
        invariant
            y <= 11,
            bytes@.len() == 352,
            forall|i: int, j: int|
                0 <= i < 11 && 0 <= j < y ==> #[trigger] area[j][i] == record_area(bytes@, i, j),
        decreases 11 - y,
    {
        let mut row: [u8; 11] = [0u8; 11];
        let mut x: usize = 0;
        while x < 11
            invariant
                x <= 11,
                y < 11,
                bytes@.len() == 352,
                forall|i: int| 0 <= i < x ==> #[trigger] row[i] == record_area(bytes@, i, y as int),
            decreases 11 - x,
        {
            row[x] = bytes[32 * y + x];
            x += 1;
        }
        area[y] = row;
        y += 1;
    }
    area
}

fn read_monsters(bytes: &[u8]) -> (monsters: CoordMap<usize>)
    requires
        bytes@.len() == 352,
    ensures
        monsters.wf(),
        forall|j: int| 0 <= j < monsters.values@.len() ==> #[trigger] monsters.values@[j] < 256,
        monsters@ == record_monsters(bytes@, 16),
{
    let mut monsters: CoordMap<usize> = CoordMap::new();
    let mut i: usize = 0;
    while i < 16
        invariant
            i <= 16,
            bytes@.len() == 352,
            monsters.wf(),
            forall|j: int| 0 <= j < monsters.values@.len() ==> #[trigger] monsters.values@[j] < 256,
            monsters@ == record_monsters(bytes@, i as nat),
        decreases 16 - i,
    {
        let kind: u8 = bytes[171 + i];
        if kind != 0 {
            monsters.insert(bytes[203 + i], bytes[235 + i], kind as usize);
        }
        i += 1;
    }
    monsters
}

/// The targets of every trigger, as maps.
pub open spec fn deep(triggers: CoordMap<CoordMap<u8>>) -> Map<(u8, u8), Map<(u8, u8), u8>> {
    Map::new(|k: (u8, u8)| triggers@.contains_key(k), |k: (u8, u8)| triggers@[k]@)
}

fn read_triggers(bytes: &[u8]) -> (triggers: CoordMap<CoordMap<u8>>)
    requires
        bytes@.len() == 352,
    ensures
        triggers.wf(),
        forall|i: int| 0 <= i < triggers.values@.len() ==> (#[trigger] triggers.values@[i]).wf(),
        deep(triggers) == record_triggers(bytes@, 8),
{
    let mut triggers: CoordMap<CoordMap<u8>> = CoordMap::new();
    assert(deep(triggers) =~= record_triggers(bytes@, 0));
    let mut i: usize = 0;
    while i < 8
        invariant
            i <= 8,
            bytes@.len() == 352,
            triggers.wf(),
            forall|j: int| 0 <= j < triggers.values@.len() ==> (#[trigger] triggers.values@[j]).wf(),
            deep(triggers) == record_triggers(bytes@, i as nat),
        decreases 8 - i,
    {
        let tile: u8 = bytes[11 + i];
        if tile != 0 {
            let mut targets: CoordMap<u8> = CoordMap::new();
            targets.insert(bytes[299 + i], bytes[307 + i], tile);
            targets.insert(bytes[331 + i], bytes[339 + i], tile);
            let ghost before = triggers;
            triggers.insert(bytes[267 + i], bytes[275 + i], targets);
            assert(deep(triggers) =~= deep(before).insert(
                record_trigger_at(bytes@, i as int),
                record_targets(bytes@, i as int),
            ));
        }
        i += 1;
    }
    triggers
}

} // verus!
