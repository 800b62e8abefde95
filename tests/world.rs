use micecat::chunk::{BlockType, Chunk, CHUNK_SIZE};
use micecat::chunk_map::{chunk_coord, initial_positions, local_coord, ChunkMap};

fn flat(relief: u32) -> Vec<u32> {
    vec![relief; CHUNK_SIZE * CHUNK_SIZE]
}

#[test]
fn floor_division_of_coordinates() {
    assert_eq!(chunk_coord(0), 0);
    assert_eq!(chunk_coord(15), 0);
    assert_eq!(chunk_coord(16), 1);
    assert_eq!(chunk_coord(-1), -1);
    assert_eq!(chunk_coord(-16), -1);
    assert_eq!(chunk_coord(-17), -2);
    assert_eq!(chunk_coord(i32::MIN), i32::MIN / 16);
    assert_eq!(chunk_coord(i32::MAX), i32::MAX / 16);
    assert_eq!(local_coord(-1), 15);
    assert_eq!(local_coord(-16), 0);
    assert_eq!(local_coord(-17), 15);
    assert_eq!(local_coord(35), 3);
}

#[test]
fn negative_voxel_reads_far_corner() {
    let mut relief = flat(0);
    relief[15 * CHUNK_SIZE + 15] = 5;
    let mut m = ChunkMap::new();
    m.insert((-1, -1), Chunk::generate((-1, -1), &relief));
    assert!(m.is_solid(-1, 69, -1));
    assert!(!m.is_solid(-1, 70, -1));
    assert!(!m.is_solid(-16, 69, -16));
    assert!(m.is_solid(-16, 64, -16));
    assert!(!m.is_solid(0, 10, 0));
}

#[test]
fn unloaded_chunks_are_empty() {
    let m = ChunkMap::new();
    assert!(!m.is_solid(0, 0, 0));
    assert!(!m.is_solid(-1, 64, -1));
    assert!(!m.is_solid(i32::MIN, 0, i32::MAX));
    assert!(m.get((0, 0)).is_none());
    assert!(!m.any_solid((-40, 0, -40), (40, 127, 40)));
}

#[test]
fn heights_outside_chunk_are_empty() {
    let mut m = ChunkMap::new();
    m.insert((0, 0), Chunk::generate((0, 0), &flat(0)));
    assert!(m.is_solid(3, 0, 3));
    assert!(!m.is_solid(3, -1, 3));
    assert!(!m.is_solid(3, 128, 3));
    assert!(!m.is_solid(16, 0, 3));
}

#[test]
fn second_insert_replaces_first() {
    let mut m = ChunkMap::new();
    m.insert((0, 0), Chunk::generate((0, 0), &flat(0)));
    m.insert((0, 0), Chunk::generate((0, 0), &flat(10)));
    assert!(m.is_solid(0, 74, 0));
    assert!(!m.is_solid(0, 75, 0));
    let c = m.get((0, 0)).unwrap();
    assert_eq!(c.block_at(0, 74, 0), Some(BlockType::Grass));
    assert_eq!(c.block_at(0, 64, 0), Some(BlockType::Stone));
}

#[test]
fn box_overlap_queries() {
    let mut m = ChunkMap::new();
    m.insert((0, 0), Chunk::generate((0, 0), &flat(0)));
    assert!(m.any_solid((1, 64, 1), (2, 66, 2)));
    assert!(!m.any_solid((1, 65, 1), (2, 66, 2)));
    assert!(!m.any_solid((2, 60, 2), (1, 66, 1)));
    assert!(!m.any_solid((-3, 0, -3), (-1, 100, -1)));
    assert!(m.any_solid((-3, 0, -3), (0, 0, 0)));
}

#[test]
fn startup_positions() {
    let p = initial_positions();
    assert_eq!(
        p,
        vec![(-1, -1), (-1, 0), (-1, 1), (0, -1), (0, 0), (0, 1), (1, -1), (1, 0), (1, 1)]
    );
}
