//! Regular-grid tessellation of the heightfield.
//!
//! A patch of `resolution` quads per side has `(resolution + 1)^2` grid
//! vertices, laid out row-major.  Each quad splits into two triangles
//! with a fixed winding order, so the index buffer is a pure function
//! of the resolution alone.

use vstd::prelude::*;
use vstd::arithmetic::div_mod::lemma_fundamental_div_mod;
use vstd::arithmetic::div_mod::lemma_mod_bound;

verus! {

/// Row-major index of the grid vertex at `(row, col)` on a patch with
/// `res` quads per side.
pub open spec fn grid_vertex(res: int, row: int, col: int) -> int {
    row * (res + 1) + col
}

/// Number of grid vertices of a patch with `resolution` quads per side:
/// one position and one normal per vertex.
pub fn vertex_count(resolution: usize) -> (n: usize)
    requires
        (resolution + 1) * (resolution + 1) <= usize::MAX,
    ensures
        n == (resolution + 1) * (resolution + 1),
{
    proof {
        assert((resolution + 1) * (resolution + 1) >= resolution + 1) by (nonlinear_arith)
            requires
                resolution >= 0,
        ;
    }
    (resolution + 1) * (resolution + 1)
}

/// Row-major position of the grid vertex at `(row, col)` inside the
/// position and normal buffers.
pub fn vertex_index(resolution: usize, row: usize, col: usize) -> (i: usize)
    requires
        row <= resolution,
        col <= resolution,
        (resolution + 1) * (resolution + 1) <= usize::MAX,
    ensures
        i == grid_vertex(resolution as int, row as int, col as int),
{
    proof {
        assert((resolution + 1) * (resolution + 1) >= resolution + 1
            && row * (resolution + 1) + col < (resolution + 1) * (resolution + 1)) by (nonlinear_arith)
            requires
                0 <= row <= resolution,
                0 <= col <= resolution,
        ;
    }
    row * (resolution + 1) + col
}

/// One quad's six index-buffer entries stand at `6 * (row * res + col)`
/// and name its corners in the fixed winding order: the triangle
/// (top-left, top-right, bottom-left), then (top-right, bottom-right,
/// bottom-left).  Reversing this order would flip the faces that a
/// renderer culls, so it is part of the contract.
pub open spec fn quad_matches(res: int, row: int, col: int, s: Seq<u32>) -> bool {
    let base = 6 * (row * res + col);
    let tl = grid_vertex(res, row, col);
    let bl = grid_vertex(res, row + 1, col);
    &&& s[base] == tl
    &&& s[base + 1] == tl + 1
    &&& s[base + 2] == bl
    &&& s[base + 3] == tl + 1
    &&& s[base + 4] == bl + 1
    &&& s[base + 5] == bl
}

/// The shape of the whole index buffer of a patch with `res` quads per
/// side: six entries per quad, quads in row-major order.  Exactly one
/// sequence has this shape (`lemma_index_shape_unique`).
pub open spec fn index_shape(res: int, s: Seq<u32>) -> bool {
    &&& s.len() == 6 * res * res
    &&& forall|row: int, col: int|
        0 <= row < res && 0 <= col < res ==> #[trigger] quad_matches(res, row, col, s)
}

/// Triangle index buffer of the tessellated patch: two triangles per
/// quad, `6 * resolution^2` entries in all, every entry below the
/// vertex count `(resolution + 1)^2`.  The bound on `resolution` keeps
/// every vertex index representable in 32 bits.
pub fn build_indices(resolution: usize) -> (indices: Vec<u32>)
    requires
        resolution <= 65535,
    ensures
        index_shape(resolution as int, indices@),
        forall|i: int|
            0 <= i < indices@.len() ==> (#[trigger] indices@[i]) < (resolution + 1) * (resolution + 1),
{
    let ghost resi: int = resolution as int;
    let mut indices: Vec<u32> = Vec::new();
    let mut row: usize = 0;
    while row < resolution
        invariant
            resolution <= 65535,
            resi == resolution as int,
            row <= resolution,
            indices@.len() == 6 * ((row as int) * resi),
            forall|r: int, c: int|
                0 <= r < row && 0 <= c < resi ==> #[trigger] quad_matches(resi, r, c, indices@),
            forall|i: int|
                0 <= i < indices@.len() ==> (#[trigger] indices@[i]) < (resi + 1) * (resi + 1),
        decreases resolution - row,
    {
        let mut col: usize = 0;
        while col < resolution
            invariant
                resolution <= 65535,
                resi == resolution as int,
                row < resolution,
                col <= resolution,
                indices@.len() == 6 * ((row as int) * resi + col as int),
                forall|r: int, c: int|
                    (0 <= r < row && 0 <= c < resi) || (r == row && 0 <= c < col)
                        ==> #[trigger] quad_matches(resi, r, c, indices@),
                forall|i: int|
                    0 <= i < indices@.len() ==> (#[trigger] indices@[i]) < (resi + 1) * (resi + 1),
            decreases resolution - col,
        {
            proof {
                assert(row * (resolution + 1) + col + 1 < (resolution + 1) * (resolution + 1)
                    && (row + 1) * (resolution + 1) + col + 1 < (resolution + 1) * (resolution + 1)
                    && (resolution + 1) * (resolution + 1) <= 0x1_0000_0000) by (nonlinear_arith)
                    requires
                        0 <= row < resolution,
                        0 <= col < resolution,
                        resolution <= 65535,
                ;
            }
            let top_left: usize = row * (resolution + 1) + col;
            let bottom_left: usize = (row + 1) * (resolution + 1) + col;
            let ghost s0 = indices@;
            indices.push(top_left as u32);
            indices.push((top_left + 1) as u32);
            indices.push(bottom_left as u32);
            indices.push((top_left + 1) as u32);
            indices.push((bottom_left + 1) as u32);
            indices.push(bottom_left as u32);
            proof {
                assert forall|r: int, c: int|
                    (0 <= r < row && 0 <= c < resi) || (r == row && 0 <= c < col + 1)
                        implies #[trigger] quad_matches(resi, r, c, indices@) by {
                    if r == row && c == col {
                        assert(indices@[s0.len() as int] == top_left as u32);
                        assert(indices@[s0.len() as int + 1] == (top_left + 1) as u32);
                        assert(indices@[s0.len() as int + 2] == bottom_left as u32);
                        assert(indices@[s0.len() as int + 3] == (top_left + 1) as u32);
                        assert(indices@[s0.len() as int + 4] == (bottom_left + 1) as u32);
                        assert(indices@[s0.len() as int + 5] == bottom_left as u32);
                    } else {
                        assert(quad_matches(resi, r, c, s0));
                        assert(r * resi + c < (row as int) * resi + col) by (nonlinear_arith)
                            requires
                                (0 <= r < row && 0 <= c < resi) || (r == row && 0 <= c < col),
                                0 <= row,
                                0 <= col,
                                0 <= resi,
                        ;
                    }
                }
            }
            col = col + 1;
        }
        proof {
            assert((row as int) * resi + resi == (row as int + 1) * resi) by (nonlinear_arith);
        }
        row = row + 1;
    }
    proof {
        assert(6 * ((row as int) * resi) == 6 * resi * resi) by (nonlinear_arith)
            requires
                row as int == resi,
        ;
    }
    indices
}

/// The index-buffer shape pins every entry down: two buffers of the
/// same shape are equal.  With `build_indices`'s postcondition this
/// says that tessellating the same resolution twice yields identical
/// index buffers.
pub proof fn lemma_index_shape_unique(res: int, s1: Seq<u32>, s2: Seq<u32>)
    requires
        res >= 0,
        index_shape(res, s1),
        index_shape(res, s2),
    ensures
        s1 == s2,
{
    assert forall|i: int| 0 <= i < s1.len() implies s1[i] == s2[i] by {
        assert(res > 0) by (nonlinear_arith)
            requires
                0 <= i < 6 * res * res,
                res >= 0,
        ;
        let q = i / 6;
        let slot = i % 6;
        let row = q / res;
        let col = q % res;
        lemma_fundamental_div_mod(i, 6);
        lemma_mod_bound(i, 6);
        lemma_fundamental_div_mod(q, res);
        lemma_mod_bound(q, res);
        assert(0 <= q < res * res) by (nonlinear_arith)
            requires
                i == 6 * q + slot,
                0 <= slot < 6,
                0 <= i < 6 * res * res,
        ;
        assert(0 <= row < res) by (nonlinear_arith)
            requires
                q == res * row + col,
                0 <= col < res,
                0 <= q < res * res,
        ;
        assert(res * row == row * res) by (nonlinear_arith);
        assert(quad_matches(res, row, col, s1));
        assert(quad_matches(res, row, col, s2));
        assert(i == 6 * (row * res + col) + slot);
    }
    assert(s1 =~= s2);
}

} // verus!

