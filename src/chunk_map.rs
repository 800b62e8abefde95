//! The world map: chunks keyed by their position in the chunk grid, and the
//! solidity of any world voxel, resolved across chunk boundaries by floor
//! division.

use std::collections::HashMap;
use vstd::prelude::*;
use crate::chunk::{Chunk, CHUNK_HEIGHT, CHUNK_SIZE};

verus! {

broadcast use vstd::std_specs::hash::group_hash_axioms;

/// Offset that moves any `i32` onto the non-negative integers.
const SHIFT: u64 = 2147483648;

/// Number of distinct `i32` values.
const SPAN: u64 = 4294967296;

/// The map key of a chunk position: both coordinates shifted to be
/// non-negative, packed into one 64-bit word.
spec fn key_of(pos: (i32, i32)) -> u64 {
    ((pos.0 + SHIFT) * SPAN + (pos.1 + SHIFT)) as u64
}

proof fn lemma_key_of_range(pos: (i32, i32))
    ensures
        0 <= (pos.0 + SHIFT) * SPAN + (pos.1 + SHIFT) <= u64::MAX,
{
    let a = pos.0 + SHIFT;
    let b = pos.1 + SHIFT;
    assert(0 <= a * SPAN + b <= u64::MAX) by (nonlinear_arith)
        requires
            0 <= a < 4294967296,
            0 <= b < 4294967296,
            SPAN == 4294967296,
    ;
}

proof fn lemma_key_of_injective(p: (i32, i32), q: (i32, i32))
    requires
        key_of(p) == key_of(q),
    ensures
        p == q,
{
    lemma_key_of_range(p);
    lemma_key_of_range(q);
    let k = key_of(p) as int;
    vstd::arithmetic::div_mod::lemma_fundamental_div_mod_converse(
        k,
        SPAN as int,
        p.0 + SHIFT,
        p.1 + SHIFT,
    );
    vstd::arithmetic::div_mod::lemma_fundamental_div_mod_converse(
        k,
        SPAN as int,
        q.0 + SHIFT,
        q.1 + SHIFT,
    );
}

fn chunk_key(pos: (i32, i32)) -> (r: u64)
    ensures
        r == key_of(pos),
{
    proof {
        lemma_key_of_range(pos);
    }
    let a: u64 = (pos.0 as i64 + SHIFT as i64) as u64;
    let b: u64 = (pos.1 as i64 + SHIFT as i64) as u64;
    a * SPAN + b
}

proof fn lemma_shifted_div_mod(v: int)
    ensures
        (v + SHIFT) / 16 == v / 16 + 134217728,
        (v + SHIFT) % 16 == v % 16,
        v == (v / 16) * 16 + v % 16,
        0 <= v % 16 < 16,
{
    vstd::arithmetic::div_mod::lemma_fundamental_div_mod(v, 16);
    vstd::arithmetic::div_mod::lemma_mod_bound(v, 16);
    vstd::arithmetic::div_mod::lemma_fundamental_div_mod_converse(
        v + SHIFT,
        16,
        v / 16 + 134217728,
        v % 16,
    );
}

/// The chunk holding world coordinate `v` along x or z: `v` divided by
/// `CHUNK_SIZE`, rounded toward negative infinity.
pub fn chunk_coord(v: i32) -> (r: i32)
    ensures
        r == v as int / CHUNK_SIZE as int,
{
    let shifted: u64 = (v as i64 + SHIFT as i64) as u64;
    let q: u64 = shifted / CHUNK_SIZE as u64;
    proof {
        lemma_shifted_div_mod(v as int);
    }
    (q as i64 - 134217728) as i32
}

/// The position of world coordinate `v` inside its chunk: `v` modulo
/// `CHUNK_SIZE`, always in `0..CHUNK_SIZE`.
pub fn local_coord(v: i32) -> (r: usize)
    ensures
        r == v as int % CHUNK_SIZE as int,
        r < CHUNK_SIZE,
{
    let shifted: u64 = (v as i64 + SHIFT as i64) as u64;
    proof {
        lemma_shifted_div_mod(v as int);
    }
    (shifted % CHUNK_SIZE as u64) as usize
}

/// Whether world voxel `(x, y, z)` is solid in a world whose loaded chunks
/// are `chunks`: the chunk holding it is loaded, `y` lies within the
/// chunk's height, and the cell holds a block. Voxels of unloaded chunks
/// are never solid.
pub open spec fn solid_in(chunks: Map<(i32, i32), Chunk>, x: int, y: int, z: int) -> bool {
    let pos = ((x / CHUNK_SIZE as int) as i32, (z / CHUNK_SIZE as int) as i32);
    chunks.contains_key(pos) && 0 <= y < CHUNK_HEIGHT && chunks[pos].cell(
        x % CHUNK_SIZE as int,
        y,
        z % CHUNK_SIZE as int,
    ).is_some()
}

/// The loaded chunks of a world, keyed by chunk position.
pub struct ChunkMap {
    chunks: HashMap<u64, Chunk>,
}

impl View for ChunkMap {
    type V = Map<(i32, i32), Chunk>;

    closed spec fn view(&self) -> Map<(i32, i32), Chunk> {
        Map::new(
            |p: (i32, i32)| self.chunks@.contains_key(key_of(p)),
            |p: (i32, i32)| self.chunks@[key_of(p)],
        )
    }
}

impl ChunkMap {
    /// Every stored chunk is well formed, and every key is that of a
    /// chunk position.
    pub closed spec fn wf(&self) -> bool {
        forall|k: u64|
            #[trigger] self.chunks@.contains_key(k) ==> self.chunks@[k].wf() && exists|p: (i32, i32)|
                key_of(p) == k
    }

    /// An empty world.
    pub fn new() -> (r: ChunkMap)
        ensures
            r.wf(),
            r@ == Map::<(i32, i32), Chunk>::empty(),
    {
        let r = ChunkMap { chunks: HashMap::new() };
        assert(r@ =~= Map::<(i32, i32), Chunk>::empty());
        r
    }

    /// Stores `chunk` at `pos`, replacing any chunk stored there.
    pub fn insert(&mut self, pos: (i32, i32), chunk: Chunk)
        requires
            old(self).wf(),
            chunk.wf(),
        ensures
            final(self).wf(),
            final(self)@ == old(self)@.insert(pos, chunk),
    {
        let key = chunk_key(pos);
        self.chunks.insert(key, chunk);
        proof {
            assert forall|p: (i32, i32)| #[trigger] self.chunks@.contains_key(key_of(p)) == (p == pos
                || old(self).chunks@.contains_key(key_of(p))) by {
                if key_of(p) == key_of(pos) {
                    lemma_key_of_injective(p, pos);
                }
            }
            assert forall|p: (i32, i32)| p != pos implies #[trigger] self.chunks@[key_of(p)]
                == old(self).chunks@[key_of(p)] by {
                if key_of(p) == key_of(pos) {
                    lemma_key_of_injective(p, pos);
                }
            }
            assert(self@ =~= old(self)@.insert(pos, chunk));
        }
    }

    /// The chunk stored at `pos`, if any.
    pub fn get(&self, pos: (i32, i32)) -> (r: Option<&Chunk>)
        requires
            self.wf(),
        ensures
            match r {
                Some(c) => self@.contains_key(pos) && *c == self@[pos] && c.wf(),
                None => !self@.contains_key(pos),
            },
    {
        let key = chunk_key(pos);
        self.chunks.get(&key)
    }

    /// Whether world voxel `(x, y, z)` is solid. The chunk is found by
    /// floor division, so negative coordinates land in the chunk below
    /// them; a voxel of an unloaded chunk, or outside a chunk's height, is
    /// not solid.
    pub fn is_solid(&self, x: i32, y: i32, z: i32) -> (r: bool)
        requires
            self.wf(),
        ensures
            r == solid_in(self@, x as int, y as int, z as int),
            !self@.contains_key((chunk_coord_of(x as int), chunk_coord_of(z as int))) ==> !r,
            !(0 <= y < CHUNK_HEIGHT) ==> !r,
    {
        let cx = chunk_coord(x);
        let cz = chunk_coord(z);
        let lx = local_coord(x);
        let lz = local_coord(z);
        match self.get((cx, cz)) {
            Some(chunk) => {
                if y >= 0 && (y as usize) < CHUNK_HEIGHT {
                    chunk.block_at(lx, y as usize, lz).is_some()
                } else {
                    false
                }
            },
            None => false,
        }
    }

    /// Whether any voxel of the box `min..=max` (on each axis) is solid.
    /// An axis whose bound `min` exceeds `max` makes the box empty.
    pub fn any_solid(&self, min: (i32, i32, i32), max: (i32, i32, i32)) -> (r: bool)
        requires
            self.wf(),
        ensures
            r == exists|x: int, y: int, z: int|
                min.0 <= x <= max.0 && min.1 <= y <= max.1 && min.2 <= z <= max.2
                    && #[trigger] solid_in(self@, x, y, z),
    {
        let mut x: i64 = min.0 as i64;
        while x <= max.0 as i64
            invariant
                self.wf(),
                min.0 <= x,
                x <= max.0 + 1 || x == min.0,
                forall|a: int, b: int, c: int|
                    min.0 <= a < x && min.1 <= b <= max.1 && min.2 <= c <= max.2
                        ==> !#[trigger] solid_in(self@, a, b, c),
            decreases max.0 + 1 - x,
        {
            let mut y: i64 = min.1 as i64;
            while y <= max.1 as i64
                invariant
                    self.wf(),
                    min.0 <= x <= max.0,
                    min.1 <= y,
                    y <= max.1 + 1 || y == min.1,
                    forall|a: int, b: int, c: int|
                        min.0 <= a < x && min.1 <= b <= max.1 && min.2 <= c <= max.2
                            ==> !#[trigger] solid_in(self@, a, b, c),
                    forall|b: int, c: int|
                        min.1 <= b < y && min.2 <= c <= max.2 ==> !#[trigger] solid_in(
                            self@,
                            x as int,
                            b,
                            c,
                        ),
                decreases max.1 + 1 - y,
            {
                let mut z: i64 = min.2 as i64;
                while z <= max.2 as i64
                    invariant
                        self.wf(),
                        min.0 <= x <= max.0,
                        min.1 <= y <= max.1,
                        min.2 <= z,
                        z <= max.2 + 1 || z == min.2,
                        forall|a: int, b: int, c: int|
                            min.0 <= a < x && min.1 <= b <= max.1 && min.2 <= c <= max.2
                                ==> !#[trigger] solid_in(self@, a, b, c),
                        forall|b: int, c: int|
                            min.1 <= b < y && min.2 <= c <= max.2 ==> !#[trigger] solid_in(
                                self@,
                                x as int,
                                b,
                                c,
                            ),
                        forall|c: int|
                            min.2 <= c < z ==> !#[trigger] solid_in(
                                self@,
                                x as int,
                                y as int,
                                c,
                            ),
                    decreases max.2 + 1 - z,
                {
                    if self.is_solid(x as i32, y as i32, z as i32) {
                        assert(solid_in(self@, x as int, y as int, z as int));
                        return true;
                    }
                    z = z + 1;
                }
                y = y + 1;
            }
            x = x + 1;
        }
        false
    }
}

/// The chunk coordinate of world coordinate `v`, as an `i32`.
pub open spec fn chunk_coord_of(v: int) -> i32 {
    (v / CHUNK_SIZE as int) as i32
}

/// The chunk positions loaded at startup: the 3 by 3 block of chunks
/// around the origin, by x and then z.
pub open spec fn initial_position(i: int) -> (i32, i32) {
    ((i / 3 - 1) as i32, (i % 3 - 1) as i32)
}

/// The chunk positions to generate at startup, in order.
pub fn initial_positions() -> (r: Vec<(i32, i32)>)
    ensures
        r@.len() == 9,
        forall|i: int| 0 <= i < 9 ==> #[trigger] r@[i] == initial_position(i),
{
    let mut r: Vec<(i32, i32)> = Vec::new();
    let mut cx: i32 = -1;
    while cx <= 1
        invariant
            -1 <= cx <= 2,
            r@.len() == 3 * (cx + 1),
            forall|i: int| 0 <= i < r@.len() ==> #[trigger] r@[i] == initial_position(i),
        decreases 2 - cx,
    {
        let mut cz: i32 = -1;
        while cz <= 1
            invariant
                -1 <= cx <= 1,
                -1 <= cz <= 2,
                r@.len() == 3 * (cx + 1) + cz + 1,
                forall|i: int| 0 <= i < r@.len() ==> #[trigger] r@[i] == initial_position(i),
            decreases 2 - cz,
        {
            proof {
                let i = 3 * (cx + 1) + cz + 1;
                vstd::arithmetic::div_mod::lemma_fundamental_div_mod_converse(
                    i,
                    3,
                    cx + 1,
                    cz + 1,
                );
            }
            r.push((cx, cz));
            cz = cz + 1;
        }
        cx = cx + 1;
    }
    r
}

/// Any world coordinate is its chunk's origin plus a local coordinate in
/// `0..CHUNK_SIZE`: the chunk is found by flooring, never by truncation.
pub proof fn lemma_world_decomposition(v: int)
    ensures
        v == (v / CHUNK_SIZE as int) * CHUNK_SIZE + v % CHUNK_SIZE as int,
        0 <= v % (CHUNK_SIZE as int) < CHUNK_SIZE,
        v < 0 ==> v / (CHUNK_SIZE as int) < 0,
{
    lemma_shifted_div_mod(v);
}

/// The voxel at world x = -1, z = -1 lies in chunk (-1, -1) at local
/// coordinates (15, 15): it is solid exactly when that chunk is loaded and
/// its cell (15, y, 15) holds a block.
pub proof fn lemma_negative_voxel_lookup(chunks: Map<(i32, i32), Chunk>, y: int)
    ensures
        solid_in(chunks, -1, y, -1) == (chunks.contains_key((-1i32, -1i32)) && 0 <= y
            < CHUNK_HEIGHT && chunks[(-1i32, -1i32)].cell(15, y, 15).is_some()),
{
    lemma_shifted_div_mod(-1);
}

/// A world with no chunk loaded holds no solid voxel.
pub proof fn lemma_unloaded_is_empty(x: int, y: int, z: int)
    ensures
        !solid_in(Map::<(i32, i32), Chunk>::empty(), x, y, z),
{
}

/// Inserting two chunks at one position leaves the world as if only the
/// second had been inserted; every voxel of that chunk answers from it.
pub proof fn lemma_insert_last_wins(
    chunks: Map<(i32, i32), Chunk>,
    pos: (i32, i32),
    first: Chunk,
    second: Chunk,
)
    ensures
        chunks.insert(pos, first).insert(pos, second) == chunks.insert(pos, second),
        chunks.insert(pos, first).insert(pos, second)[pos] == second,
        forall|x: int, y: int, z: int|
            chunk_coord_of(x) == pos.0 && chunk_coord_of(z) == pos.1 ==> #[trigger] solid_in(
                chunks.insert(pos, first).insert(pos, second),
                x,
                y,
                z,
            ) == (0 <= y < CHUNK_HEIGHT && second.cell(
                x % CHUNK_SIZE as int,
                y,
                z % CHUNK_SIZE as int,
            ).is_some()),
{
    assert(chunks.insert(pos, first).insert(pos, second) =~= chunks.insert(pos, second));
}

} // verus!
