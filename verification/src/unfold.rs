use vstd::prelude::*;
use crate::block::DungeonBlock;
use crate::floor::DungeonFloor;

verus! {

/// A block of a level, `(u, v)` on the wrapping grid, and the place `(x, y)`
/// that it gets in a layout that does not wrap.
#[derive(Copy, Clone, PartialEq, Eq, Structural, Debug)]
pub struct Placement {
    pub u: u8,
    pub v: u8,
    pub x: i32,
    pub y: i32,
}

/// Step along the columns in a direction: 0 east, 1 south, 2 west, 3 north.
pub open spec fn dx(dir: int) -> int {
    if dir == 0 {
        1
    } else if dir == 2 {
        -1
    } else {
        0
    }
}

/// Step along the rows in a direction.
pub open spec fn dy(dir: int) -> int {
    if dir == 1 {
        1
    } else if dir == 3 {
        -1
    } else {
        0
    }
}

impl Placement {
    /// Number of the block, row by row.
    pub open spec fn code(self) -> int {
        self.v as int * 8 + self.u as int
    }

    /// The block lies on the grid, and its place in the layout is its place
    /// on the grid up to whole turns round it.
    pub open spec fn fits(self) -> bool {
        &&& self.u < 8
        &&& self.v < 8
        &&& (self.x - self.u) % 8 == 0
        &&& (self.y - self.v) % 8 == 0
    }

    /// The place is at most `n` steps outside the grid.
    pub open spec fn within(self, n: int) -> bool {
        &&& -n <= self.x <= 7 + n
        &&& -n <= self.y <= 7 + n
    }

    /// The neighbour in a direction: round the edge on the grid, straight on
    /// in the layout.
    pub open spec fn toward(self, dir: int) -> Placement {
        Placement {
            u: ((self.u + 8 + dx(dir)) % 8) as u8,
            v: ((self.v + 8 + dy(dir)) % 8) as u8,
            x: (self.x + dx(dir)) as i32,
            y: (self.y + dy(dir)) as i32,
        }
    }

    /// The neighbour in a direction: 0 east, 1 south, 2 west, 3 north.
    pub fn step(self, dir: u8) -> (q: Placement)
        requires
            self.fits(),
            i32::MIN < self.x < i32::MAX,
            i32::MIN < self.y < i32::MAX,
            dir < 4,
        ensures
            q == self.toward(dir as int),
            q.fits(),
    {
        match dir {
            0 => Placement { u: (self.u + 1) % 8, v: self.v, x: self.x + 1, y: self.y },
            1 => Placement { u: self.u, v: (self.v + 1) % 8, x: self.x, y: self.y + 1 },
            2 => Placement { u: (self.u + 7) % 8, v: self.v, x: self.x - 1, y: self.y },
            _ => Placement { u: self.u, v: (self.v + 7) % 8, x: self.x, y: self.y - 1 },
        }
    }
}

/// Whether the block `(u, v)` of the floor is a wall.
pub open spec fn wall_at(floor: DungeonFloor, u: int, v: int) -> bool {
    floor.block_at(u, v) is Wall
}

/// Whether any block of the floor is no wall.
pub open spec fn has_ground(floor: DungeonFloor) -> bool {
    exists|u: int, v: int| 0 <= u < 8 && 0 <= v < 8 && !#[trigger] wall_at(floor, u, v)
}

/// `(u, v)` is the first block, row by row, that is no wall.
pub open spec fn is_seed(floor: DungeonFloor, u: int, v: int) -> bool {
    &&& 0 <= u < 8
    &&& 0 <= v < 8
    &&& !wall_at(floor, u, v)
    &&& forall|a: int, b: int|
        0 <= a < 8 && 0 <= b < 8 && b * 8 + a < v * 8 + u ==> #[trigger] wall_at(floor, a, b)
}

/// `q` lies one step from some placement of the two lists, on the grid and in
/// the layout, in one direction.
pub open spec fn linked(ground: Seq<Placement>, walls: Seq<Placement>, q: Placement) -> bool {
    ||| exists|j: int| 0 <= j < ground.len() && leads_to(#[trigger] ground[j], q)
    ||| exists|j: int| 0 <= j < walls.len() && leads_to(#[trigger] walls[j], q)
}

/// One step from `p` in some direction is `q`.
pub open spec fn leads_to(p: Placement, q: Placement) -> bool {
    p.toward(0) == q || p.toward(1) == q || p.toward(2) == q || p.toward(3) == q
}

/// The layout of a level without wrapping: where each block that is no wall
/// goes, in the order in which the blocks were reached, and the same for the
/// wall blocks, which are not drawn.
#[derive(Clone, Debug)]
pub struct Unfolding {
    pub ground: Vec<Placement>,
    pub walls: Vec<Placement>,
}

impl Unfolding {
    /// Every block of the floor is placed exactly once, the blocks that are
    /// no walls in `ground` and the walls in `walls`; the first of `ground`
    /// is the first such block of the floor and keeps its place; every other
    /// placement lies one step from another, on the grid and in the layout.
    pub open spec fn unfolds(&self, floor: DungeonFloor) -> bool {
        &&& self.ground@.len() + self.walls@.len() == 64
        &&& self.ground@.len() > 0
        &&& is_seed(floor, self.ground@[0].u as int, self.ground@[0].v as int)
        &&& self.ground@[0].x == self.ground@[0].u
        &&& self.ground@[0].y == self.ground@[0].v
        &&& forall|i: int|
            0 <= i < self.ground@.len() ==> {
                let p = #[trigger] self.ground@[i];
                p.fits() && p.within(64) && !wall_at(floor, p.u as int, p.v as int)
            }
        &&& forall|i: int|
            0 <= i < self.walls@.len() ==> {
                let p = #[trigger] self.walls@[i];
                p.fits() && p.within(64) && wall_at(floor, p.u as int, p.v as int)
            }
        &&& forall|i: int, j: int|
            0 <= i < j < self.ground@.len() ==> (#[trigger] self.ground@[i]).code() != (
            #[trigger] self.ground@[j]).code()
        &&& forall|i: int, j: int|
            0 <= i < j < self.walls@.len() ==> (#[trigger] self.walls@[i]).code() != (
            #[trigger] self.walls@[j]).code()
        &&& forall|u: int, v: int|
            0 <= u < 8 && 0 <= v < 8 ==> #[trigger] self.places(u, v)
        &&& forall|i: int|
            1 <= i < self.ground@.len() ==> linked(self.ground@, self.walls@, #[trigger] self.ground@[i])
        &&& forall|i: int|
            0 <= i < self.walls@.len() ==> linked(self.ground@, self.walls@, #[trigger] self.walls@[i])
    }

    /// The block `(u, v)` has a placement.
    pub open spec fn places(&self, u: int, v: int) -> bool {
        ||| exists|i: int| 0 <= i < self.ground@.len() && (#[trigger] self.ground@[i]).code() == v * 8 + u
        ||| exists|i: int| 0 <= i < self.walls@.len() && (#[trigger] self.walls@[i]).code() == v * 8 + u
    }

    /// Every block at its place on the grid, row by row.
    pub open spec fn grid() -> Seq<Placement> {
        Seq::new(
            64,
            |i: int|
                Placement { u: (i % 8) as u8, v: (i / 8) as u8, x: (i % 8) as i32, y: (i / 8) as i32 },
        )
    }

    /// The layout in which every block keeps its place on the grid.
    pub fn identity() -> (m: Unfolding)
        ensures
            m.walls@.len() == 0,
            m.ground@ == Unfolding::grid(),
    {
        let mut ground: Vec<Placement> = Vec::new();
        let mut i: u8 = 0;
        while i < 64
            invariant
                i <= 64,
                ground@.len() == i,
                forall|k: int|
                    0 <= k < i ==> #[trigger] ground@[k] == (Placement {
                        u: (k % 8) as u8,
                        v: (k / 8) as u8,
                        x: (k % 8) as i32,
                        y: (k / 8) as i32,
                    }),
            decreases 64 - i,
        {
            ground.push(Placement { u: i % 8, v: i / 8, x: (i % 8) as i32, y: (i / 8) as i32 });
            i += 1;
        }
        assert(ground@ =~= Unfolding::grid());
        Unfolding { ground, walls: Vec::new() }
    }

    /// The block that is drawn at the place `(x, y)` of the layout: that of
    /// the first placement there.
    pub fn physical(&self, x: i32, y: i32) -> (r: Option<(u8, u8)>)
        ensures
            match r {
                Some((u, v)) => exists|i: int|
                    0 <= i < self.ground@.len() && #[trigger] self.ground@[i] == (Placement {
                        u,
                        v,
                        x,
                        y,
                    }) && forall|k: int|
                        0 <= k < i ==> !((#[trigger] self.ground@[k]).x == x && self.ground@[k].y
                            == y),
                None => forall|i: int|
                    0 <= i < self.ground@.len() ==> !((#[trigger] self.ground@[i]).x == x
                        && self.ground@[i].y == y),
            },
    {
        let mut i: usize = 0;
        while i < self.ground.len()
            invariant
                i <= self.ground@.len(),
                forall|k: int|
                    0 <= k < i ==> !((#[trigger] self.ground@[k]).x == x && self.ground@[k].y == y),
            decreases self.ground@.len() - i,
        {
            let p = self.ground[i];
            if p.x == x && p.y == y {
                assert(self.ground@[i as int] == (Placement { u: p.u, v: p.v, x, y }));
                return Some((p.u, p.v));
            }
            i += 1;
        }
        None
    }
}

/// In a layout of a floor every block has one placement and no more, and the
/// placements of two blocks that lie side by side on the grid lie side by
/// side in the layout up to whole turns round the grid: the places differ by
/// the step between the blocks and a multiple of 8 along each axis.
pub proof fn lemma_neighbours_up_to_turns(
    m: Unfolding,
    floor: DungeonFloor,
    p: Placement,
    q: Placement,
    dir: int,
)
    requires
        m.unfolds(floor),
        m.ground@.contains(p) || m.walls@.contains(p),
        m.ground@.contains(q) || m.walls@.contains(q),
        0 <= dir < 4,
        q.u == p.toward(dir).u,
        q.v == p.toward(dir).v,
    ensures
        (q.x - p.x - dx(dir)) % 8 == 0,
        (q.y - p.y - dy(dir)) % 8 == 0,
{
    lemma_placement_fits(m, floor, p);
    lemma_placement_fits(m, floor, q);
    lemma_congruent_step(p, q, dir);
}

/// A placement of a layout lies on the grid, at its place up to whole turns.
pub proof fn lemma_placement_fits(m: Unfolding, floor: DungeonFloor, p: Placement)
    requires
        m.unfolds(floor),
        m.ground@.contains(p) || m.walls@.contains(p),
    ensures
        p.fits(),
        p.within(64),
{
    if m.ground@.contains(p) {
        let i = choose|i: int| 0 <= i < m.ground@.len() && m.ground@[i] == p;
        assert(m.ground@[i].fits());
    } else {
        let i = choose|i: int| 0 <= i < m.walls@.len() && m.walls@[i] == p;
        assert(m.walls@[i].fits());
    }
}

proof fn lemma_congruent_step(p: Placement, q: Placement, dir: int)
    requires
        p.fits(),
        q.fits(),
        0 <= dir < 4,
        q.u == p.toward(dir).u,
        q.v == p.toward(dir).v,
    ensures
        (q.x - p.x - dx(dir)) % 8 == 0,
        (q.y - p.y - dy(dir)) % 8 == 0,
{
    lemma_congruent_axis(p.x as int, p.u as int, q.x as int, q.u as int, dx(dir));
    lemma_congruent_axis(p.y as int, p.v as int, q.y as int, q.v as int, dy(dir));
}

/// Along one axis: two places that are their columns up to whole turns, in
/// columns one step apart round the edge, are one step apart up to whole
/// turns.
proof fn lemma_congruent_axis(px: int, pu: int, qx: int, qu: int, d: int)
    requires
        0 <= pu < 8,
        0 <= qu < 8,
        -1 <= d <= 1,
        (px - pu) % 8 == 0,
        (qx - qu) % 8 == 0,
        qu == (pu + 8 + d) % 8,
    ensures
        (qx - px - d) % 8 == 0,
{
    let a = (px - pu) / 8;
    let b = (qx - qu) / 8;
    assert(px - pu == 8 * a);
    assert(qx - qu == 8 * b);
    let t = qu - pu - d;
    assert(t == 0 || t == 8 || t == -8);
    if t == 0 {
        assert(qx - px - d == 8 * (b - a));
    } else if t == 8 {
        assert(qx - px - d == 8 * (b - a + 1));
    } else {
        assert(qx - px - d == 8 * (b - a - 1));
    }
}

/// In a layout of a floor no block has two placements.
pub proof fn lemma_placed_once(m: Unfolding, floor: DungeonFloor, p: Placement, q: Placement)
    requires
        m.unfolds(floor),
        m.ground@.contains(p) || m.walls@.contains(p),
        m.ground@.contains(q) || m.walls@.contains(q),
        p.u == q.u,
        p.v == q.v,
    ensures
        p == q,
{
    if m.ground@.contains(p) {
        let i = choose|i: int| 0 <= i < m.ground@.len() && m.ground@[i] == p;
        assert(!wall_at(floor, m.ground@[i].u as int, m.ground@[i].v as int));
        if m.ground@.contains(q) {
            let j = choose|j: int| 0 <= j < m.ground@.len() && m.ground@[j] == q;
            assert(m.ground@[i].code() == m.ground@[j].code());
            assert(i == j);
        } else {
            let j = choose|j: int| 0 <= j < m.walls@.len() && m.walls@[j] == q;
            assert(wall_at(floor, m.walls@[j].u as int, m.walls@[j].v as int));
        }
    } else {
        let i = choose|i: int| 0 <= i < m.walls@.len() && m.walls@[i] == p;
        assert(wall_at(floor, m.walls@[i].u as int, m.walls@[i].v as int));
        if m.walls@.contains(q) {
            let j = choose|j: int| 0 <= j < m.walls@.len() && m.walls@[j] == q;
            assert(m.walls@[i].code() == m.walls@[j].code());
            assert(i == j);
        } else {
            let j = choose|j: int| 0 <= j < m.ground@.len() && m.ground@[j] == q;
            assert(!wall_at(floor, m.ground@[j].u as int, m.ground@[j].v as int));
        }
    }
}

/// Finds the first block, row by row, that is no wall.
pub fn find_seed(floor: &DungeonFloor) -> (r: Option<(u8, u8)>)
    ensures
        r is Some <==> has_ground(*floor),
        r matches Some((u, v)) ==> is_seed(*floor, u as int, v as int),
{
    let mut i: u8 = 0;
    while i < 64
        invariant
            i <= 64,
            forall|a: int, b: int|
                0 <= a < 8 && 0 <= b < 8 && b * 8 + a < i ==> #[trigger] wall_at(*floor, a, b),
        decreases 64 - i,
    {
        let u: u8 = i % 8;
        let v: u8 = i / 8;
        if !matches!(floor.block(u as usize, v as usize), DungeonBlock::Wall) {
            assert(!wall_at(*floor, u as int, v as int));
            return Some((u, v));
        }
        i += 1;
    }
    None
}

/// The walk over a level, as far as it has come.
pub struct WalkState {
    /// For each block, by its number: whether it is on one of the lists.
    pub seen: Seq<bool>,
    /// The blocks that are no walls, in the order in which they were reached.
    pub ground: Seq<Placement>,
    /// The wall blocks, in the order in which they were reached.
    pub walls: Seq<Placement>,
    /// How many of `ground` have had their neighbours looked at.
    pub ground_done: nat,
    /// How many of `walls` have had their neighbours looked at.
    pub walls_done: nat,
}

/// The walk has not seen the neighbour of `p` in this direction, and it is no
/// wall.
pub open spec fn finds_ground(s: WalkState, floor: DungeonFloor, p: Placement, dir: int) -> bool {
    let q = p.toward(dir);
    !s.seen[q.code()] && !wall_at(floor, q.u as int, q.v as int)
}

/// The walk after a look at the neighbour of `p` in this direction: one that
/// has not been seen goes to the end of its list.
pub open spec fn looked(s: WalkState, floor: DungeonFloor, p: Placement, dir: int) -> WalkState {
    let q = p.toward(dir);
    if s.seen[q.code()] {
        s
    } else if wall_at(floor, q.u as int, q.v as int) {
        WalkState { seen: s.seen.update(q.code(), true), walls: s.walls.push(q), ..s }
    } else {
        WalkState { seen: s.seen.update(q.code(), true), ground: s.ground.push(q), ..s }
    }
}

/// The walk after the next block of `ground` has had its four neighbours
/// looked at: east, south, west, north.
pub open spec fn ground_step(s: WalkState, floor: DungeonFloor) -> WalkState {
    let p = s.ground[s.ground_done as int];
    let s0 = WalkState { ground_done: s.ground_done + 1, ..s };
    looked(looked(looked(looked(s0, floor, p, 0), floor, p, 1), floor, p, 2), floor, p, 3)
}

/// The walk after the next block of `walls` has had its neighbours looked at,
/// in the same order, up to the first that goes to `ground`.
pub open spec fn wall_step(s: WalkState, floor: DungeonFloor) -> WalkState {
    let p = s.walls[s.walls_done as int];
    let s0 = WalkState { walls_done: s.walls_done + 1, ..s };
    let s1 = looked(s0, floor, p, 0);
    let s2 = looked(s1, floor, p, 1);
    let s3 = looked(s2, floor, p, 2);
    if finds_ground(s0, floor, p, 0) {
        s1
    } else if finds_ground(s1, floor, p, 1) {
        s2
    } else if finds_ground(s2, floor, p, 2) {
        s3
    } else {
        looked(s3, floor, p, 3)
    }
}

/// The walk after at most `steps` more blocks have had their neighbours
/// looked at: a block of `ground` while there is one, else a block of
/// `walls`.
#[verifier::opaque]
pub open spec fn walked(s: WalkState, floor: DungeonFloor, steps: nat) -> WalkState
    decreases steps,
{
    if steps == 0 {
        s
    } else if s.ground_done < s.ground.len() {
        walked(ground_step(s, floor), floor, (steps - 1) as nat)
    } else if s.walls_done < s.walls.len() {
        walked(wall_step(s, floor), floor, (steps - 1) as nat)
    } else {
        s
    }
}

/// The walk before its first step: the block `(u, v)` alone, on the list of
/// `ground`, at its own place.
pub open spec fn seeded(u: int, v: int) -> WalkState {
    WalkState {
        seen: Seq::new(64, |i: int| i == v * 8 + u),
        ground: seq![Placement { u: u as u8, v: v as u8, x: u as i32, y: v as i32 }],
        walls: Seq::empty(),
        ground_done: 0,
        walls_done: 0,
    }
}

/// Number of the first block of the floor, row by row, that is no wall.
pub open spec fn seed_code(floor: DungeonFloor) -> int {
    choose|c: int| is_seed_code(floor, c)
}

/// `c` is the number of the first block, row by row, that is no wall.
pub open spec fn is_seed_code(floor: DungeonFloor, c: int) -> bool {
    0 <= c < 64 && is_seed(floor, c % 8, c / 8)
}

/// The whole walk over a floor that has a block that is no wall: sixty-four
/// steps from its seed, one for each block.
pub open spec fn unfolded(floor: DungeonFloor) -> WalkState {
    walked(seeded(seed_code(floor) % 8, seed_code(floor) / 8), floor, 64)
}

/// The walk goes on with a block of `ground` while there is one.
pub proof fn lemma_walked_ground(s: WalkState, floor: DungeonFloor, steps: nat)
    requires
        steps > 0,
        s.ground_done < s.ground.len(),
    ensures
        walked(s, floor, steps) == walked(ground_step(s, floor), floor, (steps - 1) as nat),
{
    reveal(walked);
}

/// The walk goes on with a block of `walls` when `ground` has none left.
pub proof fn lemma_walked_wall(s: WalkState, floor: DungeonFloor, steps: nat)
    requires
        steps > 0,
        s.ground_done >= s.ground.len(),
        s.walls_done < s.walls.len(),
    ensures
        walked(s, floor, steps) == walked(wall_step(s, floor), floor, (steps - 1) as nat),
{
    reveal(walked);
}

/// The walk ends when neither list has a block left.
pub proof fn lemma_walked_out(s: WalkState, floor: DungeonFloor, steps: nat)
    requires
        s.ground_done >= s.ground.len(),
        s.walls_done >= s.walls.len(),
    ensures
        walked(s, floor, steps) == s,
{
    reveal(walked);
}

/// A floor has one seed at most.
pub proof fn lemma_seed_code(floor: DungeonFloor, u: int, v: int)
    requires
        is_seed(floor, u, v),
    ensures
        seed_code(floor) == v * 8 + u,
{
    let c = v * 8 + u;
    assert(c % 8 == u && c / 8 == v);
    assert(is_seed_code(floor, c));
    let d = seed_code(floor);
    assert(is_seed_code(floor, d));
    if d < c {
        assert(wall_at(floor, d % 8, d / 8));
    }
    if c < d {
        assert(wall_at(floor, u, v));
    }
}

/// The state of the walk over a level.
struct Walk {
    /// For each block, by its number: whether it has been put on a list.
    seen: Vec<bool>,
    /// The blocks that are no walls, in the order in which they were reached.
    ground: Vec<Placement>,
    /// The wall blocks, in the order in which they were reached.
    walls: Vec<Placement>,
    /// How many of `ground` have had their neighbours looked at.
    ground_done: usize,
    /// How many of `walls` have had their neighbours looked at.
    walls_done: usize,
    /// The numbers of the blocks on the lists.
    marked: Ghost<Set<int>>,
}

/// The block with this number is on one of the lists.
spec fn listed(ground: Seq<Placement>, walls: Seq<Placement>, b: int) -> bool {
    ||| exists|i: int| 0 <= i < ground.len() && (#[trigger] ground[i]).code() == b
    ||| exists|i: int| 0 <= i < walls.len() && (#[trigger] walls[i]).code() == b
}

/// What holds of the two lists and the flags at every moment of the walk.
#[verifier::opaque]
spec fn lists_ok(
    seen: Seq<bool>,
    ground: Seq<Placement>,
    walls: Seq<Placement>,
    marked: Set<int>,
    floor: DungeonFloor,
) -> bool {
    let count = ground.len() + walls.len();
    &&& seen.len() == 64
    &&& marked.finite()
    &&& marked.len() == count
    &&& forall|b: int| marked.contains(b) ==> 0 <= b < 64
    &&& forall|b: int| 0 <= b < 64 ==> (#[trigger] seen[b] <==> marked.contains(b))
    &&& forall|i: int|
        0 <= i < ground.len() ==> {
            let p = #[trigger] ground[i];
            p.fits() && p.within(count as int) && !wall_at(floor, p.u as int, p.v as int)
                && marked.contains(p.code())
        }
    &&& forall|i: int|
        0 <= i < walls.len() ==> {
            let p = #[trigger] walls[i];
            p.fits() && p.within(count as int) && wall_at(floor, p.u as int, p.v as int)
                && marked.contains(p.code())
        }
    &&& forall|i: int, j: int|
        0 <= i < j < ground.len() ==> (#[trigger] ground[i]).code() != (#[trigger] ground[j]).code()
    &&& forall|i: int, j: int|
        0 <= i < j < walls.len() ==> (#[trigger] walls[i]).code() != (#[trigger] walls[j]).code()
    &&& forall|b: int| #[trigger] marked.contains(b) ==> listed(ground, walls, b)
    &&& forall|i: int| 1 <= i < ground.len() ==> linked(ground, walls, #[trigger] ground[i])
    &&& forall|i: int| 0 <= i < walls.len() ==> linked(ground, walls, #[trigger] walls[i])
}

/// The block east of `p` has been seen, and so has the block south of it,
/// unless `p` is a wall with a block east of it that is none.
#[verifier::opaque]
spec fn settled_at(seen: Seq<bool>, floor: DungeonFloor, p: Placement) -> bool {
    &&& seen[p.toward(0).code()]
    &&& seen[p.toward(1).code()] || (wall_at(floor, p.u as int, p.v as int) && !wall_at(
        floor,
        p.toward(0).u as int,
        p.toward(0).v as int,
    ))
}

/// Every flag that is set in `a` is set in `b`.
spec fn grew(a: Seq<bool>, b: Seq<bool>) -> bool {
    &&& a.len() == 64
    &&& b.len() == 64
    &&& forall|i: int| 0 <= i < 64 && a[i] ==> b[i]
}

proof fn lemma_settled_stays(a: Seq<bool>, b: Seq<bool>, floor: DungeonFloor, p: Placement)
    requires
        grew(a, b),
        p.fits(),
        settled_at(a, floor, p),
    ensures
        settled_at(b, floor, p),
{
    reveal(settled_at);
    assert(0 <= p.toward(0).code() < 64);
    assert(0 <= p.toward(1).code() < 64);
}

proof fn lemma_settled_by_east_and_south(seen: Seq<bool>, floor: DungeonFloor, p: Placement)
    requires
        seen[p.toward(0).code()],
        seen[p.toward(1).code()],
    ensures
        settled_at(seen, floor, p),
{
    reveal(settled_at);
}

proof fn lemma_settled_by_ground_east(seen: Seq<bool>, floor: DungeonFloor, p: Placement)
    requires
        seen[p.toward(0).code()],
        wall_at(floor, p.u as int, p.v as int),
        !wall_at(floor, p.toward(0).u as int, p.toward(0).v as int),
    ensures
        settled_at(seen, floor, p),
{
    reveal(settled_at);
}

/// The lists stay in order when a block that has not been seen, one step from
/// a block of the lists, goes to the end of its list.
proof fn lemma_lists_grow(
    seen: Seq<bool>,
    ground: Seq<Placement>,
    walls: Seq<Placement>,
    marked: Set<int>,
    floor: DungeonFloor,
    p: Placement,
    q: Placement,
    wall: bool,
)
    requires
        lists_ok(seen, ground, walls, marked, floor),
        ground.contains(p) || walls.contains(p),
        leads_to(p, q),
        q.fits(),
        !seen[q.code()],
        wall == wall_at(floor, q.u as int, q.v as int),
    ensures
        lists_ok(
            seen.update(q.code(), true),
            if wall {
                ground
            } else {
                ground.push(q)
            },
            if wall {
                walls.push(q)
            } else {
                walls
            },
            marked.insert(q.code()),
            floor,
        ),
{
    reveal(lists_ok);
    let code = q.code();
    let n = (ground.len() + walls.len()) as int;
    let seen2 = seen.update(code, true);
    let ground2 = if wall {
        ground
    } else {
        ground.push(q)
    };
    let walls2 = if wall {
        walls.push(q)
    } else {
        walls
    };
    let marked2 = marked.insert(code);
    assert(0 <= code < 64);
    assert(!marked.contains(code));
    assert(marked2.len() == n + 1);
    assert(n <= 64) by {
        vstd::set_lib::lemma_int_range(0, 64);
        assert(marked.subset_of(vstd::set_lib::set_int_range(0, 64)));
        vstd::set_lib::lemma_len_subset(marked, vstd::set_lib::set_int_range(0, 64));
    }
    assert(q.within(n + 1)) by {
        if ground.contains(p) {
            let j = choose|j: int| 0 <= j < ground.len() && ground[j] == p;
            assert(ground[j].within(n));
        } else {
            let j = choose|j: int| 0 <= j < walls.len() && walls[j] == p;
            assert(walls[j].within(n));
        }
    }
    assert forall|i: int| 0 <= i < ground2.len() implies {
        let r = #[trigger] ground2[i];
        r.fits() && r.within(n + 1) && !wall_at(floor, r.u as int, r.v as int) && marked2.contains(
            r.code(),
        )
    } by {
        if i < ground.len() {
            assert(ground2[i] == ground[i]);
        }
    }
    assert forall|i: int| 0 <= i < walls2.len() implies {
        let r = #[trigger] walls2[i];
        r.fits() && r.within(n + 1) && wall_at(floor, r.u as int, r.v as int) && marked2.contains(
            r.code(),
        )
    } by {
        if i < walls.len() {
            assert(walls2[i] == walls[i]);
        }
    }
    assert forall|i: int, j: int| 0 <= i < j < ground2.len() implies (#[trigger] ground2[i]).code()
        != (#[trigger] ground2[j]).code() by {
        assert(ground2[i] == ground[i]);
        if j < ground.len() {
            assert(ground2[j] == ground[j]);
        }
    }
    assert forall|i: int, j: int| 0 <= i < j < walls2.len() implies (#[trigger] walls2[i]).code()
        != (#[trigger] walls2[j]).code() by {
        assert(walls2[i] == walls[i]);
        if j < walls.len() {
            assert(walls2[j] == walls[j]);
        }
    }
    assert forall|b: int| #[trigger] marked2.contains(b) implies listed(ground2, walls2, b) by {
        if b == code {
            if wall {
                assert(walls2[walls.len() as int].code() == b);
            } else {
                assert(ground2[ground.len() as int].code() == b);
            }
        } else {
            assert(listed(ground, walls, b));
            if exists|i: int| 0 <= i < ground.len() && (#[trigger] ground[i]).code() == b {
                let i = choose|i: int| 0 <= i < ground.len() && (#[trigger] ground[i]).code() == b;
                assert(ground2[i].code() == b);
            } else {
                let i = choose|i: int| 0 <= i < walls.len() && (#[trigger] walls[i]).code() == b;
                assert(walls2[i].code() == b);
            }
        }
    }
    assert(linked(ground2, walls2, q)) by {
        if ground.contains(p) {
            let j = choose|j: int| 0 <= j < ground.len() && ground[j] == p;
            assert(leads_to(ground2[j], q));
        } else {
            let j = choose|j: int| 0 <= j < walls.len() && walls[j] == p;
            assert(leads_to(walls2[j], q));
        }
    }
    assert forall|r: Placement| linked(ground, walls, r) implies linked(ground2, walls2, r) by {
        if exists|j: int| 0 <= j < ground.len() && leads_to(#[trigger] ground[j], r) {
            let j = choose|j: int| 0 <= j < ground.len() && leads_to(#[trigger] ground[j], r);
            assert(leads_to(ground2[j], r));
        } else {
            let j = choose|j: int| 0 <= j < walls.len() && leads_to(#[trigger] walls[j], r);
            assert(leads_to(walls2[j], r));
        }
    }
    assert forall|i: int| 1 <= i < ground2.len() implies linked(
        ground2,
        walls2,
        #[trigger] ground2[i],
    ) by {
        if i < ground.len() {
            assert(ground2[i] == ground[i]);
            assert(linked(ground, walls, ground[i]));
        }
    }
    assert forall|i: int| 0 <= i < walls2.len() implies linked(
        ground2,
        walls2,
        #[trigger] walls2[i],
    ) by {
        if i < walls.len() {
            assert(walls2[i] == walls[i]);
            assert(linked(ground, walls, walls[i]));
        }
    }
}

impl Walk {
    spec fn count(&self) -> int {
        (self.ground@.len() + self.walls@.len()) as int
    }

    spec fn state(&self) -> WalkState {
        WalkState {
            seen: self.seen@,
            ground: self.ground@,
            walls: self.walls@,
            ground_done: self.ground_done as nat,
            walls_done: self.walls_done as nat,
        }
    }

    spec fn base(&self, floor: DungeonFloor) -> bool {
        &&& lists_ok(self.seen@, self.ground@, self.walls@, self.marked@, floor)
        &&& self.ground_done <= self.ground@.len()
        &&& self.walls_done <= self.walls@.len()
    }

    /// Every block whose neighbours have been looked at is settled.
    spec fn settled(&self, floor: DungeonFloor) -> bool {
        &&& forall|i: int|
            0 <= i < self.ground_done ==> settled_at(self.seen@, floor, #[trigger] self.ground@[i])
        &&& forall|i: int|
            0 <= i < self.walls_done ==> settled_at(self.seen@, floor, #[trigger] self.walls@[i])
    }

    /// What is left to do: it falls with every block that is put on a list
    /// and with every block whose neighbours are looked at.
    spec fn left(&self) -> int {
        128 - self.count() - self.ground_done - self.walls_done
    }

    proof fn lemma_count_bound(&self, floor: DungeonFloor)
        requires
            self.base(floor),
        ensures
            self.count() <= 64,
            self.left() >= 0,
            self.seen@.len() == 64,
    {
        reveal(lists_ok);
        vstd::set_lib::lemma_int_range(0, 64);
        assert(self.marked@.subset_of(vstd::set_lib::set_int_range(0, 64)));
        vstd::set_lib::lemma_len_subset(self.marked@, vstd::set_lib::set_int_range(0, 64));
    }

    proof fn lemma_member(&self, floor: DungeonFloor, p: Placement)
        requires
            self.base(floor),
            self.ground@.contains(p) || self.walls@.contains(p),
        ensures
            p.fits(),
            p.within(64),
    {
        reveal(lists_ok);
        self.lemma_count_bound(floor);
    }

    proof fn lemma_wall(&self, floor: DungeonFloor, i: int)
        requires
            self.base(floor),
            0 <= i < self.walls@.len(),
        ensures
            wall_at(floor, self.walls@[i].u as int, self.walls@[i].v as int),
    {
        reveal(lists_ok);
    }

    /// The block with this number, once seen, is on a list.
    proof fn lemma_find(&self, floor: DungeonFloor, b: int) -> (p: Placement)
        requires
            self.base(floor),
            0 <= b < 64,
            self.seen@[b],
        ensures
            p.fits(),
            p.code() == b,
            (exists|i: int| 0 <= i < self.ground@.len() && #[trigger] self.ground@[i] == p) || (
            exists|i: int| 0 <= i < self.walls@.len() && #[trigger] self.walls@[i] == p),
    {
        reveal(lists_ok);
        assert(self.marked@.contains(b));
        assert(listed(self.ground@, self.walls@, b));
        if exists|i: int| 0 <= i < self.ground@.len() && (#[trigger] self.ground@[i]).code() == b {
            let i = choose|i: int|
                0 <= i < self.ground@.len() && (#[trigger] self.ground@[i]).code() == b;
            assert(self.ground@[i] == self.ground@[i]);
            self.ground@[i]
        } else {
            let i = choose|i: int|
                0 <= i < self.walls@.len() && (#[trigger] self.walls@[i]).code() == b;
            assert(self.walls@[i] == self.walls@[i]);
            self.walls@[i]
        }
    }

    /// Looks at the neighbour of `p` in a direction: one that has not been
    /// seen goes to the end of its list. Says whether it went to `ground`.
    fn visit(&mut self, floor: &DungeonFloor, p: Placement, dir: u8) -> (fresh_ground: bool)
        requires
            old(self).base(*floor),
            dir < 4,
            old(self).ground@.contains(p) || old(self).walls@.contains(p),
        ensures
            final(self).base(*floor),
            final(self).ground_done == old(self).ground_done,
            final(self).walls_done == old(self).walls_done,
            final(self).seen@[p.toward(dir as int).code()],
            grew(old(self).seen@, final(self).seen@),
            old(self).ground@.is_prefix_of(final(self).ground@),
            old(self).walls@.is_prefix_of(final(self).walls@),
            fresh_ground ==> final(self).ground@.len() == old(self).ground@.len() + 1
                && final(self).walls@ == old(self).walls@ && !wall_at(
                *floor,
                p.toward(dir as int).u as int,
                p.toward(dir as int).v as int,
            ),
            !fresh_ground ==> final(self).ground@ == old(self).ground@,
            final(self).left() <= old(self).left(),
            final(self).state() == looked(old(self).state(), *floor, p, dir as int),
            fresh_ground == finds_ground(old(self).state(), *floor, p, dir as int),
    {
        proof {
            self.lemma_count_bound(*floor);
            self.lemma_member(*floor, p);
        }
        let q = p.step(dir);
        let code: usize = q.v as usize * 8 + q.u as usize;
        if self.seen[code] {
            return false;
        }
        let ghost before = *self;
        let wall = matches!(floor.block(q.u as usize, q.v as usize), DungeonBlock::Wall);
        self.seen.set(code, true);
        proof {
            self.marked@ = self.marked@.insert(code as int);
        }
        if wall {
            self.walls.push(q);
        } else {
            self.ground.push(q);
        }
        proof {
            lemma_lists_grow(
                before.seen@,
                before.ground@,
                before.walls@,
                before.marked@,
                *floor,
                p,
                q,
                wall,
            );
            if wall {
                assert(self.walls@ =~= before.walls@.push(q));
            } else {
                assert(self.ground@ =~= before.ground@.push(q));
            }
            assert(self.seen@ =~= before.seen@.update(q.code(), true));
            assert(self.state() == looked(before.state(), *floor, p, dir as int));
        }
        !wall
    }

    /// The settled blocks stay settled while flags are only set and the lists
    /// only grow.
    proof fn lemma_settled_kept(&self, before: Walk, floor: DungeonFloor)
        requires
            before.base(floor),
            before.settled(floor),
            grew(before.seen@, self.seen@),
            before.ground@.is_prefix_of(self.ground@),
            before.walls@.is_prefix_of(self.walls@),
        ensures
            forall|i: int|
                0 <= i < before.ground_done ==> settled_at(
                    self.seen@,
                    floor,
                    #[trigger] self.ground@[i],
                ),
            forall|i: int|
                0 <= i < before.walls_done ==> settled_at(
                    self.seen@,
                    floor,
                    #[trigger] self.walls@[i],
                ),
    {
        assert forall|i: int| 0 <= i < before.ground_done implies settled_at(
            self.seen@,
            floor,
            #[trigger] self.ground@[i],
        ) by {
            assert(self.ground@[i] == before.ground@[i]);
            before.lemma_member(floor, before.ground@[i]);
            lemma_settled_stays(before.seen@, self.seen@, floor, before.ground@[i]);
        }
        assert forall|i: int| 0 <= i < before.walls_done implies settled_at(
            self.seen@,
            floor,
            #[trigger] self.walls@[i],
        ) by {
            assert(self.walls@[i] == before.walls@[i]);
            before.lemma_member(floor, before.walls@[i]);
            lemma_settled_stays(before.seen@, self.seen@, floor, before.walls@[i]);
        }
    }

    /// Looks at the four neighbours of the next block of `ground`.
    fn expand_ground(&mut self, floor: &DungeonFloor)
        requires
            old(self).base(*floor),
            old(self).settled(*floor),
            old(self).ground_done < old(self).ground@.len(),
        ensures
            final(self).base(*floor),
            final(self).settled(*floor),
            0 <= final(self).left() < old(self).left(),
            old(self).ground@.is_prefix_of(final(self).ground@),
            final(self).state() == ground_step(old(self).state(), *floor),
    {
        let ghost before = *self;
        let ghost k = self.ground_done as int;
        proof {
            self.lemma_count_bound(*floor);
        }
        let p = self.ground[self.ground_done];
        self.ground_done += 1;
        assert(self.ground@[k] == p);
        self.visit(floor, p, 0);
        assert(self.ground@[k] == p);
        self.visit(floor, p, 1);
        assert(self.ground@[k] == p);
        self.visit(floor, p, 2);
        assert(self.ground@[k] == p);
        self.visit(floor, p, 3);
        proof {
            self.lemma_count_bound(*floor);
            before.lemma_member(*floor, p);
            assert(0 <= p.toward(0).code() < 64);
            assert(0 <= p.toward(1).code() < 64);
            assert(grew(before.seen@, self.seen@));
            assert(self.seen@[p.toward(0).code()]);
            assert(self.seen@[p.toward(1).code()]);
            self.lemma_settled_kept(before, *floor);
            lemma_settled_by_east_and_south(self.seen@, *floor, p);
        }
    }

    /// Looks at the neighbours of the next block of `walls`, up to the first
    /// that goes to `ground`. Says whether there was one.
    fn expand_wall(&mut self, floor: &DungeonFloor) -> (found: bool)
        requires
            old(self).base(*floor),
            old(self).settled(*floor),
            old(self).walls_done < old(self).walls@.len(),
        ensures
            final(self).base(*floor),
            final(self).settled(*floor),
            0 <= final(self).left() < old(self).left(),
            final(self).ground_done == old(self).ground_done,
            old(self).ground@.is_prefix_of(final(self).ground@),
            found ==> final(self).ground@.len() == old(self).ground@.len() + 1,
            !found ==> final(self).ground@ == old(self).ground@,
            final(self).state() == wall_step(old(self).state(), *floor),
    {
        let ghost before = *self;
        let ghost k = self.walls_done as int;
        let p = self.walls[self.walls_done];
        proof {
            before.lemma_count_bound(*floor);
            before.lemma_member(*floor, p);
            before.lemma_wall(*floor, k);
        }
        self.walls_done += 1;
        assert(self.walls@[k] == p);
        let east = self.visit(floor, p, 0);
        let ghost seen_east = self.seen@;
        if east {
            proof {
                self.lemma_count_bound(*floor);
                self.lemma_settled_kept(before, *floor);
                lemma_settled_by_ground_east(self.seen@, *floor, p);
            }
            return true;
        }
        assert(self.walls@[k] == p);
        let mut found = self.visit(floor, p, 1);
        let ghost seen_south = self.seen@;
        if !found {
            assert(self.walls@[k] == p);
            found = self.visit(floor, p, 2);
        }
        let ghost seen_west = self.seen@;
        if !found {
            assert(self.walls@[k] == p);
            found = self.visit(floor, p, 3);
        }
        proof {
            self.lemma_count_bound(*floor);
            assert(0 <= p.toward(0).code() < 64);
            assert(0 <= p.toward(1).code() < 64);
            assert(grew(seen_east, seen_south));
            assert(grew(seen_south, seen_west));
            assert(grew(seen_west, self.seen@));
            assert(grew(before.seen@, self.seen@));
            assert(self.seen@[p.toward(0).code()]);
            assert(self.seen@[p.toward(1).code()]);
            self.lemma_settled_kept(before, *floor);
            lemma_settled_by_east_and_south(self.seen@, *floor, p);
        }
        found
    }

    /// Whether the block `(u, v)` has been seen.
    spec fn at(&self, u: int, v: int) -> bool {
        self.seen@[v * 8 + u]
    }

    /// Every block has had its neighbours looked at.
    spec fn drained(&self, floor: DungeonFloor) -> bool {
        &&& self.base(floor)
        &&& self.settled(floor)
        &&& self.ground_done == self.ground@.len()
        &&& self.walls_done == self.walls@.len()
    }

    proof fn lemma_settled_cell(&self, floor: DungeonFloor, u: int, v: int)
        requires
            self.drained(floor),
            0 <= u < 8,
            0 <= v < 8,
            self.at(u, v),
        ensures
            self.at((u + 1) % 8, v),
            self.at(u, (v + 1) % 8) || (wall_at(floor, u, v) && !wall_at(floor, (u + 1) % 8, v)),
    {
        let p = self.lemma_find(floor, v * 8 + u);
        assert(p.u == u && p.v == v);
        assert(settled_at(self.seen@, floor, p));
        reveal(settled_at);
        assert(p.toward(0).code() == v * 8 + (u + 1) % 8);
        assert(p.toward(1).code() == ((v + 1) % 8) * 8 + u);
    }

    proof fn lemma_row_from(&self, floor: DungeonFloor, u: int, v: int, k: nat)
        requires
            self.drained(floor),
            0 <= u < 8,
            0 <= v < 8,
            self.at(u, v),
        ensures
            self.at((u + k) % 8, v),
        decreases k,
    {
        if k > 0 {
            self.lemma_row_from(floor, u, v, (k - 1) as nat);
            self.lemma_settled_cell(floor, (u + k - 1) % 8, v);
            assert(((u + k - 1) % 8 + 1) % 8 == (u + k) % 8);
        }
    }

    proof fn lemma_row(&self, floor: DungeonFloor, u: int, v: int)
        requires
            self.drained(floor),
            0 <= u < 8,
            0 <= v < 8,
            self.at(u, v),
        ensures
            forall|a: int| 0 <= a < 8 ==> #[trigger] self.at(a, v),
    {
        assert forall|a: int| 0 <= a < 8 implies #[trigger] self.at(a, v) by {
            let k = ((a - u + 8) % 8) as nat;
            self.lemma_row_from(floor, u, v, k);
            assert((u + k) % 8 == a);
        }
    }

    proof fn lemma_next_row(&self, floor: DungeonFloor, v: int)
        requires
            self.drained(floor),
            0 <= v < 8,
            self.at(0, v),
            self.at(1, v),
        ensures
            forall|a: int| 0 <= a < 8 ==> #[trigger] self.at(a, (v + 1) % 8),
    {
        self.lemma_settled_cell(floor, 0, v);
        self.lemma_settled_cell(floor, 1, v);
        if self.at(0, (v + 1) % 8) {
            self.lemma_row(floor, 0, (v + 1) % 8);
        } else {
            self.lemma_row(floor, 1, (v + 1) % 8);
        }
    }

    proof fn lemma_rows_from(&self, floor: DungeonFloor, v: int, k: nat)
        requires
            self.drained(floor),
            0 <= v < 8,
            forall|a: int| 0 <= a < 8 ==> #[trigger] self.at(a, v),
        ensures
            forall|a: int| 0 <= a < 8 ==> #[trigger] self.at(a, (v + k) % 8),
        decreases k,
    {
        if k > 0 {
            self.lemma_rows_from(floor, v, (k - 1) as nat);
            let w = (v + (k - 1) as nat) % 8;
            assert((w + 1) % 8 == (v + k) % 8);
            assert(self.at(0, w));
            assert(self.at(1, w));
            self.lemma_next_row(floor, w);
        }
    }

    /// When nothing is left to look at, every block of the floor has been
    /// seen: the walk goes east from every block and south from every block
    /// but a wall that has found ground east of it, and from that ground the
    /// walk goes south.
    proof fn lemma_complete(&self, floor: DungeonFloor)
        requires
            self.drained(floor),
            self.ground@.len() > 0,
        ensures
            forall|u: int, v: int| 0 <= u < 8 && 0 <= v < 8 ==> #[trigger] self.at(u, v),
    {
        let seed = self.ground@[0];
        assert(self.at(seed.u as int, seed.v as int) && seed.u < 8 && seed.v < 8) by {
            reveal(lists_ok);
            assert(seed.fits());
            assert(self.marked@.contains(seed.code()));
        }
        self.lemma_row(floor, seed.u as int, seed.v as int);
        assert forall|u: int, v: int| 0 <= u < 8 && 0 <= v < 8 implies #[trigger] self.at(u, v) by {
            let k = ((v - seed.v + 8) % 8) as nat;
            self.lemma_rows_from(floor, seed.v as int, k);
            assert((seed.v + k) % 8 == v);
        }
    }

    /// A walk with nothing left to look at is the whole walk.
    proof fn lemma_finished(&self, floor: DungeonFloor, steps: nat)
        requires
            self.drained(floor),
            walked(self.state(), floor, steps) == unfolded(floor),
        ensures
            self.ground@ == unfolded(floor).ground,
            self.walls@ == unfolded(floor).walls,
    {
        lemma_walked_out(self.state(), floor, steps);
    }

    /// The lists of a finished walk are a layout of the floor.
    proof fn lemma_unfolds(&self, floor: DungeonFloor, m: Unfolding)
        requires
            self.drained(floor),
            self.ground@.len() > 0,
            is_seed(floor, self.ground@[0].u as int, self.ground@[0].v as int),
            self.ground@[0].x == self.ground@[0].u,
            self.ground@[0].y == self.ground@[0].v,
            m.ground@ == self.ground@,
            m.walls@ == self.walls@,
        ensures
            m.unfolds(floor),
    {
        self.lemma_complete(floor);
        self.lemma_count_bound(floor);
        reveal(lists_ok);
        vstd::set_lib::lemma_int_range(0, 64);
        assert forall|b: int| 0 <= b < 64 implies self.marked@.contains(b) by {
            let u = b % 8;
            let v = b / 8;
            assert(self.at(u, v));
        }
        assert(self.marked@ =~= vstd::set_lib::set_int_range(0, 64));
        assert forall|u: int, v: int| 0 <= u < 8 && 0 <= v < 8 implies #[trigger] m.places(
            u,
            v,
        ) by {
            assert(self.marked@.contains(v * 8 + u));
            assert(listed(self.ground@, self.walls@, v * 8 + u));
        }
    }
}

/// Sixty-four flags, none of them set.
fn no_flags() -> (flags: Vec<bool>)
    ensures
        flags@.len() == 64,
        forall|i: int| 0 <= i < 64 ==> !#[trigger] flags@[i],
{
    let mut flags: Vec<bool> = Vec::new();
    let mut i: usize = 0;
    while i < 64
        invariant
            i <= 64,
            flags@.len() == i,
            forall|k: int| 0 <= k < i ==> !#[trigger] flags@[k],
        decreases 64 - i,
    {
        flags.push(false);
        i += 1;
    }
    flags
}

/// The walk before its first step: the seed alone, on the list of `ground`.
fn begin(floor: &DungeonFloor, u: u8, v: u8) -> (walk: Walk)
    requires
        is_seed(*floor, u as int, v as int),
    ensures
        walk.base(*floor),
        walk.settled(*floor),
        walk.ground@.len() == 1,
        walk.ground@[0] == (Placement { u, v, x: u as i32, y: v as i32 }),
        walk.state() == seeded(u as int, v as int),
{
    let start = Placement { u, v, x: u as i32, y: v as i32 };
    let code: usize = v as usize * 8 + u as usize;
    let mut seen = no_flags();
    seen.set(code, true);
    let mut ground: Vec<Placement> = Vec::new();
    ground.push(start);
    let walk = Walk {
        seen,
        ground,
        walls: Vec::new(),
        ground_done: 0,
        walls_done: 0,
        marked: Ghost(Set::<int>::empty().insert(code as int)),
    };
    proof {
        reveal(lists_ok);
        assert(walk.ground@[0].code() == code);
        assert(listed(walk.ground@, walk.walls@, code as int));
        assert(walk.state().seen =~= seeded(u as int, v as int).seen);
        assert(walk.state().ground =~= seeded(u as int, v as int).ground);
        assert(walk.state().walls =~= seeded(u as int, v as int).walls);
    }
    walk
}

/// Lays the blocks of a level out without wrapping. The walk starts at the
/// first block that is no wall, which keeps its place, and grows the region
/// of such blocks from it, neighbour by neighbour, east, south, west, north;
/// a neighbour across the edge of the grid is placed beyond the edge. Walls
/// that it meets wait on a list of their own. When the region is done, the
/// walk goes on through the walls, in the order in which it met them, until
/// one of them has a neighbour that is no wall and has not been seen: the
/// next region grows from there.
pub fn unfold(floor: &DungeonFloor) -> (r: Option<Unfolding>)
    ensures
        r is Some <==> has_ground(*floor),
        r matches Some(m) ==> m.ground@ == unfolded(*floor).ground && m.walls@ == unfolded(
            *floor,
        ).walls && m.unfolds(*floor),
{
    let (u, v) = match find_seed(floor) {
        Some(seed) => seed,
        None => {
            return None;
        },
    };
    let ghost start = Placement { u, v, x: u as i32, y: v as i32 };
    let mut walk = begin(floor, u, v);
    let ghost steps: nat = 64;
    let mut done = false;
    proof {
        walk.lemma_count_bound(*floor);
        lemma_seed_code(*floor, u as int, v as int);
    }
    while !done
        invariant
            walk.base(*floor),
            walk.settled(*floor),
            walk.ground@.len() > 0,
            walk.ground@[0] == start,
            walk.left() >= 0,
            steps + walk.ground_done + walk.walls_done == 64,
            walked(walk.state(), *floor, steps) == unfolded(*floor),
            done ==> walk.drained(*floor),
        decreases
            walk.left() + (if done {
                0int
            } else {
                1int
            }),
    {
        proof {
            walk.lemma_count_bound(*floor);
        }
        if walk.ground_done < walk.ground.len() {
            proof {
                lemma_walked_ground(walk.state(), *floor, steps);
            }
            walk.expand_ground(floor);
            proof {
                steps = (steps - 1) as nat;
            }
        } else if walk.walls_done < walk.walls.len() {
            proof {
                lemma_walked_wall(walk.state(), *floor, steps);
            }
            walk.expand_wall(floor);
            proof {
                steps = (steps - 1) as nat;
            }
        } else {
            done = true;
        }
    }
    proof {
        walk.lemma_finished(*floor, steps);
    }
    let m = Unfolding { ground: walk.ground, walls: walk.walls };
    proof {
        walk.lemma_unfolds(*floor, m);
    }
    Some(m)
}

} // verus!
