//! One chunk of terrain: a dense grid of optional blocks, `CHUNK_SIZE` wide
//! on the two horizontal axes and `CHUNK_HEIGHT` tall, generated column by
//! column from a height field.

use vstd::prelude::*;

verus! {

/// The kind of a block. Air is normally stored as an empty cell.
#[derive(Clone, Copy, PartialEq, Eq, Debug, Structural)]
pub enum BlockType {
    Air,
    Grass,
    Dirt,
    Stone,
}

/// Width of a chunk along x and along z.
pub const CHUNK_SIZE: usize = 16;

/// Height of a chunk: the rows that generation fills and queries consult.
pub const CHUNK_HEIGHT: usize = 128;

/// Cells in one horizontal layer.
pub const LAYER_CELLS: usize = CHUNK_SIZE * CHUNK_SIZE;

/// Cells in a chunk.
pub const CHUNK_VOLUME: usize = CHUNK_HEIGHT * LAYER_CELLS;

/// Base height added to every column's relief.
pub const BASE_HEIGHT: u64 = 64;

/// Whether `(x, y, z)` lies inside a chunk's grid.
pub open spec fn in_chunk(x: int, y: int, z: int) -> bool {
    0 <= x < CHUNK_SIZE && 0 <= y < CHUNK_HEIGHT && 0 <= z < CHUNK_SIZE
}

/// Flat index of cell `(x, y, z)`: layers by height, then rows by x.
pub open spec fn cell_index(x: int, y: int, z: int) -> int {
    y * LAYER_CELLS + x * CHUNK_SIZE + z
}

/// What a generated column of terrain height `height` holds at row `y`:
/// grass on top, dirt in the three rows below it, stone further down,
/// nothing above the top nor beyond the chunk's height.
pub open spec fn column_block(y: int, height: int) -> Option<BlockType> {
    if 0 <= y <= height && y < CHUNK_HEIGHT {
        if y == height {
            Some(BlockType::Grass)
        } else if y + 4 > height {
            Some(BlockType::Dirt)
        } else {
            Some(BlockType::Stone)
        }
    } else {
        None
    }
}

/// The terrain height of the column whose relief is `relief`.
pub open spec fn column_height(relief: u32) -> int {
    BASE_HEIGHT + relief
}

/// World coordinate of local coordinate `local` in chunk `chunk`.
pub open spec fn world_of(chunk: int, local: int) -> int {
    chunk * CHUNK_SIZE + local
}

/// A chunk: its position in the chunk grid and its cells.
pub struct Chunk {
    position: (i32, i32),
    blocks: Vec<Option<BlockType>>,
}

proof fn lemma_cell_index(x: int, y: int, z: int)
    requires
        in_chunk(x, y, z),
    ensures
        0 <= cell_index(x, y, z) < CHUNK_VOLUME,
        cell_index(x, y, z) / (LAYER_CELLS as int) == y,
        (cell_index(x, y, z) / (CHUNK_SIZE as int)) % (CHUNK_SIZE as int) == x,
        cell_index(x, y, z) % (CHUNK_SIZE as int) == z,
{
    let k = cell_index(x, y, z);
    assert(0 <= k < CHUNK_VOLUME) by (nonlinear_arith)
        requires
            k == y * 256 + x * 16 + z,
            0 <= x < 16,
            0 <= y < 128,
            0 <= z < 16,
    ;
    vstd::arithmetic::div_mod::lemma_fundamental_div_mod_converse(k, 256, y, x * 16 + z);
    vstd::arithmetic::div_mod::lemma_fundamental_div_mod_converse(k, 16, y * 16 + x, z);
    vstd::arithmetic::div_mod::lemma_fundamental_div_mod_converse(y * 16 + x, 16, y, x);
}

impl Chunk {
    /// The grid holds exactly one cell per position.
    pub closed spec fn wf(&self) -> bool {
        self.blocks@.len() == CHUNK_VOLUME
    }

    /// The chunk's position in the chunk grid.
    pub closed spec fn pos(&self) -> (i32, i32) {
        self.position
    }

    /// The content of cell `(x, y, z)`.
    pub closed spec fn cell(&self, x: int, y: int, z: int) -> Option<BlockType> {
        self.blocks@[cell_index(x, y, z)]
    }

    /// Generates the chunk at `pos` from the relief of its columns:
    /// `relief[x * CHUNK_SIZE + z]` is the height of column `(x, z)` above
    /// `BASE_HEIGHT`. Each column holds `column_block` of its height.
    pub fn generate(pos: (i32, i32), relief: &Vec<u32>) -> (r: Chunk)
        requires
            relief@.len() == LAYER_CELLS,
        ensures
            r.wf(),
            r.pos() == pos,
            forall|x: int, y: int, z: int|
                in_chunk(x, y, z) ==> #[trigger] r.cell(x, y, z) == column_block(
                    y,
                    column_height(relief@[x * CHUNK_SIZE + z]),
                ),
    {
        let mut blocks: Vec<Option<BlockType>> = Vec::with_capacity(CHUNK_VOLUME);
        let mut k: usize = 0;
        while k < CHUNK_VOLUME
            invariant
                k <= CHUNK_VOLUME,
                relief@.len() == LAYER_CELLS,
                blocks@.len() == k,
                forall|j: int|
                    0 <= j < k ==> #[trigger] blocks@[j] == column_block(
                        j / (LAYER_CELLS as int),
                        column_height(relief@[j % (LAYER_CELLS as int)]),
                    ),
            decreases CHUNK_VOLUME - k,
        {
            let y: usize = k / LAYER_CELLS;
            let column: usize = k % LAYER_CELLS;
            let height: u64 = BASE_HEIGHT + relief[column] as u64;
            let yy: u64 = y as u64;
            let cell = if yy <= height {
                if yy == height {
                    Some(BlockType::Grass)
                } else if yy + 4 > height {
                    Some(BlockType::Dirt)
                } else {
                    Some(BlockType::Stone)
                }
            } else {
                None
            };
            blocks.push(cell);
            k = k + 1;
        }
        let r = Chunk { position: pos, blocks };
        assert forall|x: int, y: int, z: int| in_chunk(x, y, z) implies #[trigger] r.cell(
            x,
            y,
            z,
        ) == column_block(y, column_height(relief@[x * CHUNK_SIZE + z])) by {
            lemma_cell_index(x, y, z);
            let j = cell_index(x, y, z);
            vstd::arithmetic::div_mod::lemma_fundamental_div_mod_converse(
                j,
                256,
                y,
                x * 16 + z,
            );
        }
        r
    }
    /// The chunk's position in the chunk grid.
    pub fn position(&self) -> (r: (i32, i32))
        ensures
            r == self.pos(),
    {
        self.position
    }

    /// The content of cell `(x, y, z)`.
    pub fn block_at(&self, x: usize, y: usize, z: usize) -> (r: Option<BlockType>)
        requires
            self.wf(),
            in_chunk(x as int, y as int, z as int),
        ensures
            r == self.cell(x as int, y as int, z as int),
    {
        proof {
            lemma_cell_index(x as int, y as int, z as int);
        }
        self.blocks[y * LAYER_CELLS + x * CHUNK_SIZE + z]
    }

    /// Whether local cell `(x, y, z)` holds a block; a position outside the
    /// chunk holds none.
    pub fn is_solid_block(&self, x: i32, y: i32, z: i32) -> (r: bool)
        requires
            self.wf(),
        ensures
            r == (in_chunk(x as int, y as int, z as int) && self.cell(
                x as int,
                y as int,
                z as int,
            ).is_some()),
            !in_chunk(x as int, y as int, z as int) ==> !r,
    {
        if x < 0 || y < 0 || z < 0 || x >= CHUNK_SIZE as i32 || y >= CHUNK_HEIGHT as i32 || z
            >= CHUNK_SIZE as i32 {
            return false;
        }
        self.block_at(x as usize, y as usize, z as usize).is_some()
    }

    /// The highest row of column `(x, z)` that holds a block, if any.
    pub fn top_block(&self, x: usize, z: usize) -> (r: Option<usize>)
        requires
            self.wf(),
            x < CHUNK_SIZE,
            z < CHUNK_SIZE,
        ensures
            match r {
                Some(y) => {
                    &&& y < CHUNK_HEIGHT
                    &&& self.cell(x as int, y as int, z as int).is_some()
                    &&& forall|h: int|
                        y < h < CHUNK_HEIGHT ==> #[trigger] self.cell(x as int, h, z as int).is_none()
                },
                None => forall|h: int|
                    0 <= h < CHUNK_HEIGHT ==> #[trigger] self.cell(x as int, h, z as int).is_none(),
            },
    {
        let mut y: usize = CHUNK_HEIGHT;
        while y > 0
            invariant
                self.wf(),
                x < CHUNK_SIZE,
                z < CHUNK_SIZE,
                y <= CHUNK_HEIGHT,
                forall|h: int| y <= h < CHUNK_HEIGHT ==> #[trigger] self.cell(x as int, h, z as int).is_none(),
            decreases y,
        {
            y = y - 1;
            if self.block_at(x, y, z).is_some() {
                return Some(y);
            }
        }
        None
    }

    /// Enumerates the chunk's occupied cells, each with its block and its
    /// world coordinates, by x, then z, then rising y.
    pub fn occupied_cells(&self) -> (r: Vec<(BlockType, i64, i64, i64)>)
        requires
            self.wf(),
        ensures
            r@ == occupied_upto(*self, CHUNK_VOLUME as int),
    {
        let mut out: Vec<(BlockType, i64, i64, i64)> = Vec::new();
        let mut k: usize = 0;
        while k < CHUNK_VOLUME
            invariant
                self.wf(),
                k <= CHUNK_VOLUME,
                out@ == occupied_upto(*self, k as int),
            decreases CHUNK_VOLUME - k,
        {
            let x: usize = k / COLUMN_SLAB;
            let z: usize = (k / CHUNK_HEIGHT) % CHUNK_SIZE;
            let y: usize = k % CHUNK_HEIGHT;
            proof {
                lemma_scan_order(k as int);
            }
            match self.block_at(x, y, z) {
                Some(b) => {
                    if b != BlockType::Air {
                        let wx = world_coord(self.position.0, x);
                        let wz = world_coord(self.position.1, z);
                        out.push((b, wx, y as i64, wz));
                    }
                },
                None => {},
            }
            k = k + 1;
        }
        out
    }
}

/// Cells in one vertical slab of a chunk at fixed x.
pub const COLUMN_SLAB: usize = CHUNK_HEIGHT * CHUNK_SIZE;

/// The cell visited `k`-th when scanning a chunk by x, then z, then y.
pub open spec fn scan_cell(k: int) -> (int, int, int) {
    (k / (COLUMN_SLAB as int), (k / (CHUNK_HEIGHT as int)) % (CHUNK_SIZE as int), k % (
    CHUNK_HEIGHT as int))
}

proof fn lemma_scan_order(k: int)
    requires
        0 <= k < CHUNK_VOLUME,
    ensures
        in_chunk(scan_cell(k).0, scan_cell(k).2, scan_cell(k).1),
{
    vstd::arithmetic::div_mod::lemma_div_pos_is_pos(k, 2048);
    vstd::arithmetic::div_mod::lemma_div_is_ordered(k, 32767, 2048);
    assert(32767int / 2048 == 15);
}

/// What the scan of `c` emits at its `k`-th cell: the block and its world
/// coordinates, when the cell holds a block other than air.
pub open spec fn scan_entry(c: Chunk, k: int) -> Option<(BlockType, i64, i64, i64)> {
    let (x, z, y) = scan_cell(k);
    match c.cell(x, y, z) {
        Some(b) => if b != BlockType::Air {
            Some(
                (
                    b,
                    world_of(c.pos().0 as int, x) as i64,
                    y as i64,
                    world_of(c.pos().1 as int, z) as i64,
                ),
            )
        } else {
            None
        },
        None => None,
    }
}

/// The entries emitted by the first `n` cells of the scan of `c`.
pub open spec fn occupied_upto(c: Chunk, n: int) -> Seq<(BlockType, i64, i64, i64)>
    decreases n,
{
    if n <= 0 {
        Seq::empty()
    } else {
        match scan_entry(c, n - 1) {
            Some(e) => occupied_upto(c, n - 1).push(e),
            None => occupied_upto(c, n - 1),
        }
    }
}

/// The shape of a generated column whose top lies inside the chunk: grass
/// at the top, dirt in up to three rows below it, stone down to the floor,
/// and nothing above the top.
pub proof fn lemma_column_shape(height: int, y: int)
    requires
        0 <= height < CHUNK_HEIGHT,
    ensures
        y == height ==> column_block(y, height) == Some(BlockType::Grass),
        0 <= y && height - 3 <= y < height ==> column_block(y, height) == Some(BlockType::Dirt),
        0 <= y < height - 3 ==> column_block(y, height) == Some(BlockType::Stone),
        y > height ==> column_block(y, height).is_none(),
{
}

/// World coordinate of local coordinate `local` in chunk `chunk`.
pub fn world_coord(chunk: i32, local: usize) -> (r: i64)
    requires
        local < CHUNK_SIZE,
    ensures
        r == world_of(chunk as int, local as int),
{
    let c: i64 = chunk as i64;
    assert(-34359738368 <= c * 16 <= 34359738368) by (nonlinear_arith)
        requires
            i32::MIN <= c <= i32::MAX,
    ;
    c * CHUNK_SIZE as i64 + local as i64
}

} // verus!
