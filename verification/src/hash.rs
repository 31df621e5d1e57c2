//! Pseudo-random hash of integer lattice coordinates.
//!
//! Each corner of the unit lattice carries one scalar, derived from a
//! fixed seed and the two coordinates by wrapping multiply-add followed
//! by an avalanche step (xor-shift, then a wrapping multiplication) that
//! diffuses bit correlation.  The caller maps the 32 result bits to a
//! value in [0, 1) by dividing by 2^32.

use vstd::prelude::*;
use vstd::wrapping::u32_specs;

verus! {

/// Seed folded into every lattice hash.
pub const HASH_SEED: u32 = 3266489917;

/// Odd multiplier applied to the x lattice coordinate.
pub const X_MULTIPLIER: u32 = 374761393;

/// Odd multiplier applied to the y lattice coordinate.
pub const Y_MULTIPLIER: u32 = 668265263;

/// Odd multiplier of the avalanche step.
pub const AVALANCHE_MULTIPLIER: u32 = 1274126177;

/// The bit pattern of a signed 32-bit value read as unsigned
/// (two's complement).
pub open spec fn unsigned_bits(x: i32) -> u32 {
    if x >= 0 {
        x as u32
    } else {
        (x + 0x1_0000_0000) as u32
    }
}

/// The lattice hash: seed and scaled coordinates combined with wrapping
/// arithmetic, then one avalanche step.  Total over all coordinate
/// pairs; wraparound is intentional, not an error.
pub open spec fn hash_bits(ix: i32, iy: i32) -> u32 {
    let mixed = u32_specs::wrapping_add(
        u32_specs::wrapping_add(HASH_SEED, u32_specs::wrapping_mul(unsigned_bits(ix), X_MULTIPLIER)),
        u32_specs::wrapping_mul(unsigned_bits(iy), Y_MULTIPLIER),
    );
    let spread = mixed ^ (mixed >> 13u32);
    u32_specs::wrapping_mul(spread, AVALANCHE_MULTIPLIER)
}

/// Reinterpret a signed lattice coordinate as its unsigned bit pattern.
fn to_bits(x: i32) -> (r: u32)
    ensures
        r == unsigned_bits(x),
{
    if x >= 0 {
        x as u32
    } else {
        ((x as i64) + 0x1_0000_0000i64) as u32
    }
}

/// Pseudo-random bits for one integer lattice coordinate pair.  The
/// result equals `hash_bits` exactly, so repeated calls on the same
/// coordinates agree bit for bit.
pub fn lattice_hash(ix: i32, iy: i32) -> (h: u32)
    ensures
        h == hash_bits(ix, iy),
{
    let mixed: u32 = HASH_SEED
        .wrapping_add(to_bits(ix).wrapping_mul(X_MULTIPLIER))
        .wrapping_add(to_bits(iy).wrapping_mul(Y_MULTIPLIER));
    let spread: u32 = mixed ^ (mixed >> 13);
    spread.wrapping_mul(AVALANCHE_MULTIPLIER)
}

/// Determinism of the lattice hash: any two results obtained for the
/// same coordinate pair — `lattice_hash` ensures each equals
/// `hash_bits` — are the same bits.  The hash reads nothing but its
/// arguments and the fixed constants.
pub proof fn lemma_hash_deterministic(ix: i32, iy: i32, h1: u32, h2: u32)
    requires
        h1 == hash_bits(ix, iy),
        h2 == hash_bits(ix, iy),
    ensures
        h1 == h2,
{
}

/// Hashes of the four corners of the unit lattice cell whose lower
/// corner is `(ix, iy)`, in the order (0,0), (1,0), (0,1), (1,1).
/// These are the four scalars that the value-noise primitive blends.
pub fn corner_hashes(ix: i32, iy: i32) -> (h: (u32, u32, u32, u32))
    requires
        ix < i32::MAX,
        iy < i32::MAX,
    ensures
        h.0 == hash_bits(ix, iy),
        h.1 == hash_bits((ix + 1) as i32, iy),
        h.2 == hash_bits(ix, (iy + 1) as i32),
        h.3 == hash_bits((ix + 1) as i32, (iy + 1) as i32),
{
    (
        lattice_hash(ix, iy),
        lattice_hash(ix + 1, iy),
        lattice_hash(ix, iy + 1),
        lattice_hash(ix + 1, iy + 1),
    )
}

} // verus!
