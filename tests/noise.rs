use micecat::noise::{gradient2d, gradient3d, hashed_gradient2d, lattice_index, NoiseTable};

#[test]
fn table_repeats_base_permutation() {
    let t = NoiseTable::new();
    assert_eq!(t.perm(0), 151);
    assert_eq!(t.perm(255), 180);
    assert_eq!(t.perm(256), 151);
    assert_eq!(t.perm(511), 180);
    for i in 0..256 {
        assert_eq!(t.perm(i), t.perm(i + 256));
    }
}

#[test]
fn table_is_a_permutation() {
    let t = NoiseTable::new();
    let mut seen = [false; 256];
    for i in 0..256 {
        seen[t.perm(i) as usize] = true;
    }
    assert!(seen.iter().all(|s| *s));
}

#[test]
fn table_is_the_same_every_time() {
    let a = NoiseTable::new();
    let b = NoiseTable::new();
    for i in 0..512 {
        assert_eq!(a.perm(i), b.perm(i));
    }
    assert_eq!(a.hash2(13, 200), b.hash2(13, 200));
}

#[test]
fn lattice_hashes() {
    let t = NoiseTable::new();
    assert_eq!(t.hash2(0, 0), 17);
    assert_eq!(t.hash2(1, 2), 152);
    assert_eq!(t.hash2(256, 256), 17);
    assert_eq!(t.hash3(3, 4, 5), 136);
}

#[test]
fn lattice_index_wraps() {
    assert_eq!(lattice_index(0), 0);
    assert_eq!(lattice_index(255), 255);
    assert_eq!(lattice_index(256), 0);
    assert_eq!(lattice_index(300), 44);
}

#[test]
fn gradient_directions_2d() {
    assert_eq!(gradient2d(0), (1, 1));
    assert_eq!(gradient2d(1), (-1, 1));
    assert_eq!(gradient2d(2), (1, -1));
    assert_eq!(gradient2d(3), (-1, -1));
    assert_eq!(gradient2d(254), (1, -1));
}

#[test]
fn gradient_directions_3d() {
    assert_eq!(gradient3d(0), (1, 1, 0));
    assert_eq!(gradient3d(3), (-1, -1, 0));
    assert_eq!(gradient3d(4), (1, 0, 1));
    assert_eq!(gradient3d(7), (-1, 0, -1));
    assert_eq!(gradient3d(13), (-1, 0, 1));
}

#[test]
fn coordinate_hash_gradients() {
    assert_eq!(hashed_gradient2d(0, 0), (1, 1));
    assert_eq!(hashed_gradient2d(1, 0), (-1, 1));
    assert_eq!(hashed_gradient2d(-1, 0), (-1, -1));
    assert_eq!(hashed_gradient2d(0, 1), (-1, -1));
    assert_eq!(hashed_gradient2d(7, -3), (1, -1));
    assert_eq!(hashed_gradient2d(100000, -200000), (1, 1));
    assert_eq!(hashed_gradient2d(i32::MAX, i32::MIN), hashed_gradient2d(i32::MAX, i32::MIN));
}
