use terrain_core::hash::corner_hashes;
use terrain_core::hash::lattice_hash;

/// Two independent invocations on the same coordinates agree bit for bit.
#[test]
fn hash_is_deterministic() {
    let coords: [(i32, i32); 6] = [
        (0, 0),
        (1, 0),
        (-1, -1),
        (123, -456),
        (5000, 5000),
        (i32::MIN, i32::MAX),
    ];
    for (ix, iy) in coords {
        assert_eq!(lattice_hash(ix, iy), lattice_hash(ix, iy));
    }
}

/// Exact values of the seeded multiply-add plus avalanche pipeline.
#[test]
fn hash_known_values() {
    assert_eq!(lattice_hash(0, 0), 3895489192);
    assert_eq!(lattice_hash(1, 0), 1693652454);
    assert_eq!(lattice_hash(0, 1), 2460121936);
    assert_eq!(lattice_hash(1, 1), 539636685);
    assert_eq!(lattice_hash(-1, -1), 4276829959);
    assert_eq!(lattice_hash(123, -456), 2891013004);
    assert_eq!(lattice_hash(5000, 5000), 3042332023);
    assert_eq!(lattice_hash(i32::MIN, i32::MAX), 3099027936);
}

/// The four corner hashes of a cell are the lattice hashes of its
/// corner coordinates, in the order (0,0), (1,0), (0,1), (1,1).
#[test]
fn corner_hashes_match_lattice() {
    let (a, b, c, d) = corner_hashes(3, -5);
    assert_eq!(a, lattice_hash(3, -5));
    assert_eq!(b, lattice_hash(4, -5));
    assert_eq!(c, lattice_hash(3, -4));
    assert_eq!(d, lattice_hash(4, -4));
    let (a, b, c, d) = corner_hashes(0, 0);
    assert_eq!((a, b, c, d), (3895489192, 1693652454, 2460121936, 539636685));
}

/// Scaling the 32 hash bits by 2^-32 lands in [0, 1) across 10,000
/// pseudo-random coordinate pairs.
#[test]
fn hash_unit_range_many_points() {
    let mut state: u32 = 0x12345678;
    let mut next = move || {
        state = state.wrapping_mul(1664525).wrapping_add(1013904223);
        state
    };
    for _ in 0..10000 {
        let ix = next() as i32;
        let iy = next() as i32;
        let bits = lattice_hash(ix, iy);
        let value = (bits as f32) * (1.0 / 4294967296.0);
        assert!(0.0 <= value && value < 1.0);
    }
}
