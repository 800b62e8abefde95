use micecat::chunk::{world_coord, BlockType, Chunk, CHUNK_HEIGHT, CHUNK_SIZE};

fn flat(relief: u32) -> Vec<u32> {
    vec![relief; CHUNK_SIZE * CHUNK_SIZE]
}

#[test]
fn generated_column_layers() {
    let c = Chunk::generate((0, 0), &flat(0));
    assert_eq!(c.position(), (0, 0));
    for x in 0..CHUNK_SIZE {
        for z in 0..CHUNK_SIZE {
            assert_eq!(c.block_at(x, 65, z), None);
            assert_eq!(c.block_at(x, 64, z), Some(BlockType::Grass));
            assert_eq!(c.block_at(x, 63, z), Some(BlockType::Dirt));
            assert_eq!(c.block_at(x, 61, z), Some(BlockType::Dirt));
            assert_eq!(c.block_at(x, 60, z), Some(BlockType::Stone));
            assert_eq!(c.block_at(x, 0, z), Some(BlockType::Stone));
            assert_eq!(c.top_block(x, z), Some(64));
        }
    }
}

#[test]
fn column_invariant_per_column() {
    let mut relief = flat(0);
    for (i, r) in relief.iter_mut().enumerate() {
        *r = (i % 20) as u32;
    }
    let c = Chunk::generate((0, 0), &relief);
    for x in 0..CHUNK_SIZE {
        for z in 0..CHUNK_SIZE {
            let h = 64 + relief[x * CHUNK_SIZE + z] as usize;
            assert_eq!(c.top_block(x, z), Some(h));
            assert_eq!(c.block_at(x, h, z), Some(BlockType::Grass));
            for y in h - 3..h {
                assert_eq!(c.block_at(x, y, z), Some(BlockType::Dirt));
            }
            for y in 0..h - 3 {
                assert_eq!(c.block_at(x, y, z), Some(BlockType::Stone));
            }
            for y in h + 1..CHUNK_HEIGHT {
                assert_eq!(c.block_at(x, y, z), None);
            }
        }
    }
}

#[test]
fn column_taller_than_chunk_is_cut() {
    let c = Chunk::generate((2, -3), &flat(100));
    assert_eq!(c.top_block(5, 5), Some(CHUNK_HEIGHT - 1));
    assert_eq!(c.block_at(5, CHUNK_HEIGHT - 1, 5), Some(BlockType::Stone));
}

#[test]
fn solid_block_bounds() {
    let c = Chunk::generate((0, 0), &flat(0));
    assert!(c.is_solid_block(0, 0, 0));
    assert!(c.is_solid_block(15, 64, 15));
    assert!(!c.is_solid_block(15, 65, 15));
    assert!(!c.is_solid_block(-1, 0, 0));
    assert!(!c.is_solid_block(0, -1, 0));
    assert!(!c.is_solid_block(0, 0, -1));
    assert!(!c.is_solid_block(16, 0, 0));
    assert!(!c.is_solid_block(0, 128, 0));
    assert!(!c.is_solid_block(0, 0, 16));
    assert!(!c.is_solid_block(i32::MAX, i32::MIN, 0));
}

#[test]
fn occupied_cells_enumeration() {
    let c = Chunk::generate((-1, 2), &flat(0));
    let cells = c.occupied_cells();
    assert_eq!(cells.len(), 65 * CHUNK_SIZE * CHUNK_SIZE);
    assert_eq!(cells[0], (BlockType::Stone, -16, 0, 32));
    assert_eq!(cells[64], (BlockType::Grass, -16, 64, 32));
    assert_eq!(cells[65], (BlockType::Stone, -16, 0, 33));
    assert_eq!(cells[cells.len() - 1], (BlockType::Grass, -1, 64, 47));
}

#[test]
fn world_coordinates_of_locals() {
    assert_eq!(world_coord(0, 0), 0);
    assert_eq!(world_coord(-1, 15), -1);
    assert_eq!(world_coord(3, 4), 52);
    assert_eq!(world_coord(i32::MIN, 0), i32::MIN as i64 * 16);
}
