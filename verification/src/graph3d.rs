//! The height-field mesh: an `(n+1) x (n+1)` grid over `[-1, 1] x [-1, 1]`,
//! two triangles per cell, whose heights ripple radially with time and whose
//! vertex normals are recomputed from the fresh heights every frame.

use vstd::prelude::*;

verus! {

use crate::app_state::TIME_MAX;
use crate::math::div_trunc;
use crate::math::isqrt;
use crate::math::lemma_sqrt_floor_exists;
use crate::math::mul_div_trunc;
use crate::math::sin_fixed;
use crate::math::sin_fp;
use crate::math::sqrt_floor;
use crate::math::FREQ_FP;
use crate::math::SCALE;
use crate::shader_controller::ShaderType;

/// Largest grid resolution whose vertex indices fit the 16-bit index buffer.
pub const GRID_MAX: usize = 255;

/// Edge length of one grid cell, in fixed point: `2 / n`, truncated.
pub open spec fn spec_square_size(n: int) -> int {
    (2 * SCALE) / n
}

/// The static x (or z) coordinate of grid column (or row) `i`.
pub open spec fn spec_grid_coord(n: int, i: int) -> int {
    -SCALE + i * spec_square_size(n)
}

/// Flat vertex number of grid point `(z, x)`.
pub open spec fn spec_vertex_index(n: int, z: int, x: int) -> int {
    z * (n + 1) + x
}

/// Row-major slot numbers grow with the position: an earlier grid point has
/// a smaller slot.
proof fn lemma_row_major_lt(m: int, zz: int, xx: int, z: int, x: int) by (nonlinear_arith)
    requires
        0 <= xx < m,
        0 <= zz,
        0 <= x,
        zz < z || (zz == z && xx < x),
    ensures
        zz * m + xx < z * m + x,
{
}

/// The position triple of grid point `(z, x)` stands written in a vertex
/// buffer.
pub open spec fn vertex_slot_ok(vertices: Seq<i64>, n: int, z: int, x: int) -> bool {
    let base = 3 * spec_vertex_index(n, z, x);
    &&& vertices[base] == spec_grid_coord(n, x)
    &&& vertices[base + 1] == 0
    &&& vertices[base + 2] == spec_grid_coord(n, z)
}

/// The six index entries of cell `(z, x)` stand written in an index buffer.
pub open spec fn cell_slot_ok(indices: Seq<u16>, n: int, z: int, x: int) -> bool {
    let base = 6 * (z * n + x);
    let tl = spec_vertex_index(n, z, x);
    let bl = spec_vertex_index(n, z + 1, x);
    &&& indices[base] == tl
    &&& indices[base + 1] == bl
    &&& indices[base + 2] == bl + 1
    &&& indices[base + 3] == tl
    &&& indices[base + 4] == bl + 1
    &&& indices[base + 5] == tl + 1
}

/// The height-field mesh entity: its shader tag, the static geometry the
/// device holds in its buffers, and the grid resolution.
pub struct Graph3d {
    pub shader_type: ShaderType,
    pub vertices: Vec<i64>,
    pub indices: Vec<u16>,
    pub rect_index_array_length: usize,
    pub n: usize,
}

impl Graph3d {
    /// Geometry invariant: the advertised resolution matches the buffers and
    /// every index points inside the vertex grid.
    pub open spec fn wf(self) -> bool {
        &&& 1 <= self.n <= GRID_MAX
        &&& self.vertices@.len() == 3 * (self.n + 1) * (self.n + 1)
        &&& self.indices@.len() == 6 * self.n * self.n
        &&& self.rect_index_array_length == 6 * self.n * self.n
        &&& forall|k: int|
            0 <= k < self.indices@.len() ==> (self.indices@[k] as int) < (self.n + 1) * (self.n + 1)
    }

    /// The static position triple of grid point `(z, x)` is in place: x and
    /// z from the `[-1, 1]` footprint, y zero.
    pub open spec fn vertex_ok(self, z: int, x: int) -> bool {
        vertex_slot_ok(self.vertices@, self.n as int, z, x)
    }

    /// The static vertex positions: row-major grid points with x and z in
    /// `[-1, 1]` and y zero.
    pub open spec fn vertices_match(self) -> bool {
        forall|z: int, x: int| 0 <= z <= self.n && 0 <= x <= self.n ==> #[trigger] self.vertex_ok(z, x)
    }

    /// The six index entries of cell `(z, x)` are in place: the triangles
    /// top-left/bottom-left/bottom-right and top-left/bottom-right/top-right.
    pub open spec fn cell_ok(self, z: int, x: int) -> bool {
        cell_slot_ok(self.indices@, self.n as int, z, x)
    }

    /// The index buffer: per cell, the two triangles
    /// top-left/bottom-left/bottom-right and top-left/bottom-right/top-right.
    pub open spec fn indices_match(self) -> bool {
        forall|z: int, x: int| 0 <= z < self.n && 0 <= x < self.n ==> #[trigger] self.cell_ok(z, x)
    }

    /// Build the static grid: `(n+1)^2` vertices and `6 n^2` indices, every
    /// index inside the grid.
    pub fn new(shader_type: ShaderType, n: usize) -> (g: Graph3d)
        requires
            1 <= n <= GRID_MAX,
        ensures
            g.wf(),
            g.n == n,
            g.shader_type == shader_type,
            g.vertices_match(),
            g.indices_match(),
    {
        let ni = n as i64;
        let square_size: i64 = (2 * SCALE) / ni;
        proof {
            assert(square_size == spec_square_size(n as int));
        }
        let mut vertices: Vec<i64> = Vec::new();
        let mut indices: Vec<u16> = Vec::new();

        let mut z: usize = 0;
        while z < n + 1
            invariant
                1 <= n <= GRID_MAX,
                ni == n as i64,
                square_size == spec_square_size(n as int),
                z <= n + 1,
                vertices@.len() == 3 * (z * (n + 1)),
                indices@.len() == 6 * (if z < n {
                    z * n
                } else {
                    n * n
                }),
                forall|zz: int, xx: int|
                    0 <= zz < z && 0 <= xx <= n ==> #[trigger] vertex_slot_ok(
                        vertices@,
                        n as int,
                        zz,
                        xx,
                    ),
                forall|zz: int, xx: int|
                    0 <= zz < n && 0 <= xx < n && zz < z ==> #[trigger] cell_slot_ok(
                        indices@,
                        n as int,
                        zz,
                        xx,
                    ),
                forall|k: int| 0 <= k < indices@.len() ==> (indices@[k] as int) < (n + 1) * (n + 1),
            decreases n + 1 - z,
        {
            let mut x: usize = 0;
            while x < n + 1
                invariant
                    1 <= n <= GRID_MAX,
                    ni == n as i64,
                    square_size == spec_square_size(n as int),
                    z <= n,
                    x <= n + 1,
                    vertices@.len() == 3 * (z * (n + 1) + x),
                    indices@.len() == 6 * (z * n + (if z < n {
                        if x < n {
                            x
                        } else {
                            n
                        }
                    } else {
                        0
                    })),
                    forall|zz: int, xx: int|
                        0 <= zz <= z && 0 <= xx <= n && (zz < z || xx < x) ==> #[trigger] vertex_slot_ok(
                            vertices@,
                            n as int,
                            zz,
                            xx,
                        ),
                    forall|zz: int, xx: int|
                        0 <= zz < n && 0 <= xx < n && (zz < z || (zz == z && xx < x))
                            ==> #[trigger] cell_slot_ok(indices@, n as int, zz, xx),
                    forall|k: int|
                        0 <= k < indices@.len() ==> (indices@[k] as int) < (n + 1) * (n + 1),
                decreases n + 1 - x,
            {
                let ghost pre_vertices = vertices@;
                let ghost pre_indices = indices@;
                proof {
                    assert(0 <= spec_square_size(n as int) <= 2 * SCALE) by {
                        vstd::arithmetic::div_mod::lemma_div_pos_is_pos(2 * SCALE, n as int);
                        vstd::arithmetic::div_mod::lemma_div_nonincreasing(2 * SCALE, n as int);
                    }
                    assert((x as int) * spec_square_size(n as int) <= 256 * (2 * SCALE)) by (
                    nonlinear_arith)
                        requires
                            0 <= (x as int) <= 256,
                            0 <= spec_square_size(n as int) <= 2 * SCALE,
                    ;
                    assert((z as int) * spec_square_size(n as int) <= 256 * (2 * SCALE)) by (
                    nonlinear_arith)
                        requires
                            0 <= (z as int) <= 256,
                            0 <= spec_square_size(n as int) <= 2 * SCALE,
                    ;
                }
                vertices.push(-SCALE + (x as i64) * square_size);
                vertices.push(0);
                vertices.push(-SCALE + (z as i64) * square_size);
                proof {
                    assert(vertex_slot_ok(vertices@, n as int, z as int, x as int));
                    assert forall|zz: int, xx: int|
                        0 <= zz <= z && 0 <= xx <= n && (zz < z || xx < x) implies vertex_slot_ok(
                        vertices@,
                        n as int,
                        zz,
                        xx,
                    ) by {
                        lemma_row_major_lt((n as int) + 1, zz, xx, z as int, x as int);
                        assert(vertex_slot_ok(pre_vertices, n as int, zz, xx));
                        assert(3 * spec_vertex_index(n as int, zz, xx) + 2 < pre_vertices.len());
                    }
                }

                if z < n && x < n {
                    proof {
                        assert((z as int) * ((n as int) + 1) + (x as int) + ((n as int) + 1) + 1 < (
                        (n as int) + 1) * ((n as int) + 1) && (z as int) * ((n as int) + 1) + (
                        x as int) <= 65278 && ((z as int) + 1) * ((n as int) + 1) == (z as int) * ((
                        n as int) + 1) + ((n as int) + 1)) by (nonlinear_arith)
                            requires
                                0 <= (z as int) < (n as int),
                                0 <= (x as int) < (n as int),
                                1 <= (n as int) <= 255,
                        ;
                    }
                    let vertex_index_top_left: u16 = (z * (n + 1) + x) as u16;
                    let vertex_index_bottom_left: u16 = vertex_index_top_left + (n + 1) as u16;
                    let vertex_index_top_right: u16 = vertex_index_top_left + 1;
                    let vertex_index_bottom_right: u16 = vertex_index_bottom_left + 1;

                    indices.push(vertex_index_top_left);
                    indices.push(vertex_index_bottom_left);
                    indices.push(vertex_index_bottom_right);
                    indices.push(vertex_index_top_left);
                    indices.push(vertex_index_bottom_right);
                    indices.push(vertex_index_top_right);
                    proof {
                        assert(cell_slot_ok(indices@, n as int, z as int, x as int));
                        assert forall|zz: int, xx: int|
                            0 <= zz < n && 0 <= xx < n && (zz < z || (zz == z && xx < x))
                                implies cell_slot_ok(indices@, n as int, zz, xx) by {
                            lemma_row_major_lt(n as int, zz, xx, z as int, x as int);
                            assert(cell_slot_ok(pre_indices, n as int, zz, xx));
                            assert(6 * ((zz * (n as int)) + xx) + 5 < pre_indices.len());
                        }
                    }
                }
                x += 1;
                proof {
                    if z < n && x <= n {
                        assert(indices@.len() == 6 * (z * n + x));
                    }
                }
            }
            proof {
                assert((z as int + 1) * ((n as int) + 1) == (z as int) * ((n as int) + 1) + (
                (n as int) + 1)) by (nonlinear_arith);
                if z < n {
                    assert((z as int + 1) * (n as int) == (z as int) * (n as int) + (n as int)) by (
                    nonlinear_arith);
                }
            }
            z += 1;
        }
        proof {
            assert(3 * ((n as int + 1) * (n as int + 1)) == 3 * (n as int + 1) * (n as int + 1)) by (
            nonlinear_arith);
            assert(6 * ((n as int) * (n as int)) == 6 * (n as int) * (n as int)) by (nonlinear_arith);
        }

        Graph3d {
            shader_type,
            vertices,
            rect_index_array_length: indices.len(),
            indices,
            n,
        }
    }

    /// The dynamic heights of every grid point at an instant.
    pub open spec fn heights_match(self, time: int, y_vals: Seq<i64>) -> bool {
        &&& y_vals.len() == (self.n + 1) * (self.n + 1)
        &&& forall|z: int, x: int|
            0 <= z <= self.n && 0 <= x <= self.n ==> #[trigger] y_vals[spec_vertex_index(
                self.n as int,
                z,
                x,
            )] == spec_height(self.n as int, z, x, time)
    }

    /// Recompute the ripple height of every grid point for the given time.
    pub fn get_updated_3d_y_values(&self, curr_time: i64) -> (y_vals: Vec<i64>)
        requires
            self.wf(),
            0 <= curr_time <= TIME_MAX,
        ensures
            self.heights_match(curr_time as int, y_vals@),
            forall|k: int|
                0 <= k < y_vals@.len() ==> -HEIGHT_LIMIT <= #[trigger] y_vals@[k] <= HEIGHT_LIMIT,
    {
        let n = self.n;
        let p: i64 = (n + 1) as i64;
        let sin_offset: i64 = ((curr_time as u64) / 1000) as i64;
        let mut y_vals: Vec<i64> = Vec::new();

        let mut z: usize = 0;
        while z < n + 1
            invariant
                1 <= n <= GRID_MAX,
                n == self.n,
                p == (n + 1) as i64,
                0 <= curr_time <= TIME_MAX,
                sin_offset == (curr_time as int) / 1000,
                z <= n + 1,
                y_vals@.len() == z * (n + 1),
                forall|zz: int, xx: int|
                    0 <= zz < z && 0 <= xx <= n ==> #[trigger] y_vals@[spec_vertex_index(
                        n as int,
                        zz,
                        xx,
                    )] == spec_height(n as int, zz, xx, curr_time as int),
                forall|k: int|
                    0 <= k < y_vals@.len() ==> -HEIGHT_LIMIT <= #[trigger] y_vals@[k]
                        <= HEIGHT_LIMIT,
            decreases n + 1 - z,
        {
            let sz: i64 = scaled_coord(n, p, z);
            let mut x: usize = 0;
            while x < n + 1
                invariant
                    1 <= n <= GRID_MAX,
                    n == self.n,
                    p == (n + 1) as i64,
                    0 <= curr_time <= TIME_MAX,
                    sin_offset == (curr_time as int) / 1000,
                    z <= n,
                    x <= n + 1,
                    sz == spec_scaled_coord(n as int, z as int),
                    -3_000_000_000 <= sz <= 3_000_000_000,
                    y_vals@.len() == z * (n + 1) + x,
                    forall|zz: int, xx: int|
                        0 <= zz <= z && 0 <= xx <= n && (zz < z || xx < x)
                            ==> #[trigger] y_vals@[spec_vertex_index(n as int, zz, xx)]
                            == spec_height(n as int, zz, xx, curr_time as int),
                    forall|k: int|
                        0 <= k < y_vals@.len() ==> -HEIGHT_LIMIT <= #[trigger] y_vals@[k]
                            <= HEIGHT_LIMIT,
                decreases n + 1 - x,
            {
                let ghost pre = y_vals@;
                let sx: i64 = scaled_coord(n, p, x);
                proof {
                    assert(0 <= (sx as int) * (sx as int) <= 9_000_000_000_000_000_000) by (
                    nonlinear_arith)
                        requires
                            -3_000_000_000 <= sx <= 3_000_000_000,
                    ;
                    assert(0 <= (sz as int) * (sz as int) <= 9_000_000_000_000_000_000) by (
                    nonlinear_arith)
                        requires
                            -3_000_000_000 <= sz <= 3_000_000_000,
                    ;
                }
                let sx2: i128 = (sx as i128) * (sx as i128);
                let sz2: i128 = (sz as i128) * (sz as i128);
                let ssq: u128 = (sx2 + sz2) as u128;
                let root: u128 = isqrt(ssq);
                proof {
                    assert(root <= 5_000_000_000) by (nonlinear_arith)
                        requires
                            (root as int) * (root as int) <= ssq as int,
                            ssq <= 18_000_000_000_000_000_000u128,
                    ;
                    assert(ssq == spec_sq_radius(n as int, z as int, x as int));
                }
                let phase: i64 = (root as i64) + sin_offset;
                let s: i64 = sin_fixed(phase);
                let h: i64 = if s >= 0 {
                    ((3 * (s as u64)) / 20) as i64
                } else {
                    -(((3 * ((-s) as u64)) / 20) as i64)
                };
                proof {
                    assert(root == sqrt_floor(spec_sq_radius(n as int, z as int, x as int)));
                    assert(phase == spec_phase(n as int, z as int, x as int, curr_time as int));
                    assert(h == spec_height(n as int, z as int, x as int, curr_time as int));
                    assert(-HEIGHT_LIMIT <= h <= HEIGHT_LIMIT);
                }
                y_vals.push(h);
                proof {
                    assert(y_vals@[spec_vertex_index(n as int, z as int, x as int)] == h);
                    assert forall|zz: int, xx: int|
                        0 <= zz <= z && 0 <= xx <= n && (zz < z || xx < x)
                            implies #[trigger] y_vals@[spec_vertex_index(n as int, zz, xx)]
                        == spec_height(n as int, zz, xx, curr_time as int) by {
                        lemma_row_major_lt((n as int) + 1, zz, xx, z as int, x as int);
                        assert(pre[spec_vertex_index(n as int, zz, xx)] == spec_height(
                            n as int,
                            zz,
                            xx,
                            curr_time as int,
                        ));
                    }
                }
                x += 1;
            }
            proof {
                assert((z as int + 1) * ((n as int) + 1) == (z as int) * ((n as int) + 1) + (
                (n as int) + 1)) by (nonlinear_arith);
            }
            z += 1;
        }
        y_vals
    }

    /// The per-vertex normals derived from a fresh set of heights.
    pub open spec fn normals_match(self, y_vals: Seq<i64>, normals: Seq<i64>) -> bool {
        &&& normals.len() == 3 * (self.n + 1) * (self.n + 1)
        &&& forall|z: int, x: int|
            0 <= z <= self.n && 0 <= x <= self.n ==> #[trigger] normal_ok(
                normals,
                y_vals,
                self.n as int,
                z,
                x,
            )
    }

    /// Derive the per-vertex normals from the given heights: border vertices
    /// get the fixed up vector, interior vertices the normalized normal of
    /// their sampling triangle.
    pub fn get_grid_normals(&self, y_vals: &Vec<i64>) -> (normals: Vec<i64>)
        requires
            self.wf(),
            y_vals@.len() == (self.n + 1) * (self.n + 1),
            forall|k: int|
                0 <= k < y_vals@.len() ==> -HEIGHT_LIMIT <= #[trigger] y_vals@[k] <= HEIGHT_LIMIT,
        ensures
            self.normals_match(y_vals@, normals@),
            forall|k: int| 0 <= k < normals@.len() ==> -SCALE <= #[trigger] normals@[k] <= SCALE,
    {
        let n = self.n;
        let point_count_per_row: usize = n + 1;
        let square_size: i64 = (2 * SCALE) / (n as i64);
        proof {
            assert(square_size == spec_square_size(n as int));
            assert(1 <= square_size <= 2 * SCALE) by {
                assert((2 * SCALE) / (n as int) >= (2 * SCALE) / 255) by {
                    vstd::arithmetic::div_mod::lemma_div_is_ordered_by_denominator(
                        2 * SCALE,
                        n as int,
                        255,
                    );
                }
                vstd::arithmetic::div_mod::lemma_div_nonincreasing(2 * SCALE, n as int);
            }
        }
        let mut normals: Vec<i64> = Vec::new();

        let mut z: usize = 0;
        while z < n + 1
            invariant
                1 <= n <= GRID_MAX,
                n == self.n,
                point_count_per_row == n + 1,
                square_size == spec_square_size(n as int),
                1 <= square_size <= 2 * SCALE,
                y_vals@.len() == (n + 1) * (n + 1),
                forall|k: int|
                    0 <= k < y_vals@.len() ==> -HEIGHT_LIMIT <= #[trigger] y_vals@[k]
                        <= HEIGHT_LIMIT,
                z <= n + 1,
                normals@.len() == 3 * (z * (n + 1)),
                forall|zz: int, xx: int|
                    0 <= zz < z && 0 <= xx <= n ==> #[trigger] normal_ok(
                        normals@,
                        y_vals@,
                        n as int,
                        zz,
                        xx,
                    ),
                forall|k: int| 0 <= k < normals@.len() ==> -SCALE <= #[trigger] normals@[k] <= SCALE,
            decreases n + 1 - z,
        {
            let mut x: usize = 0;
            while x < n + 1
                invariant
                    1 <= n <= GRID_MAX,
                    n == self.n,
                    point_count_per_row == n + 1,
                    square_size == spec_square_size(n as int),
                    1 <= square_size <= 2 * SCALE,
                    y_vals@.len() == (n + 1) * (n + 1),
                    forall|k: int|
                        0 <= k < y_vals@.len() ==> -HEIGHT_LIMIT <= #[trigger] y_vals@[k]
                            <= HEIGHT_LIMIT,
                    z <= n,
                    x <= n + 1,
                    normals@.len() == 3 * (z * (n + 1) + x),
                    forall|zz: int, xx: int|
                        0 <= zz <= z && 0 <= xx <= n && (zz < z || xx < x) ==> #[trigger] normal_ok(
                            normals@,
                            y_vals@,
                            n as int,
                            zz,
                            xx,
                        ),
                    forall|k: int|
                        0 <= k < normals@.len() ==> -SCALE <= #[trigger] normals@[k] <= SCALE,
                decreases n + 1 - x,
            {
                let ghost pre = normals@;
                if z == n || x == n {
                    normals.push(0);
                    normals.push(SCALE);
                    normals.push(0);
                } else {
                    proof {
                        assert((z as int) * ((n as int) + 1) + (x as int) + ((n as int) + 1) + 1 < (
                        (n as int) + 1) * ((n as int) + 1) && (z as int) * ((n as int) + 1) + (
                        x as int) <= 65278 && ((n as int) + 1) * ((n as int) + 1) <= 65536) by (
                        nonlinear_arith)
                            requires
                                0 <= (z as int) < (n as int),
                                0 <= (x as int) < (n as int),
                                1 <= (n as int) <= 255,
                        ;
                    }
                    let y_val_index_a: usize = z * point_count_per_row + x;
                    let y_val_index_b: usize = y_val_index_a + point_count_per_row;
                    let y_val_index_c: usize = y_val_index_b + 1;
                    let ya: i64 = y_vals[y_val_index_a];
                    let yb: i64 = y_vals[y_val_index_b];
                    let yc: i64 = y_vals[y_val_index_c];
                    proof {
                        assert(y_val_index_b == spec_vertex_index(n as int, z as int + 1, x as int))
                            by (nonlinear_arith)
                            requires
                                y_val_index_b == (z as int) * ((n as int) + 1) + (x as int) + ((
                                n as int) + 1),
                        ;
                    }
                    let (nx, ny, nz): (i64, i64, i64) = interior_normal(square_size, ya, yb, yc);
                    normals.push(nx);
                    normals.push(ny);
                    normals.push(nz);
                }
                proof {
                    assert(normal_ok(normals@, y_vals@, n as int, z as int, x as int));
                    assert forall|zz: int, xx: int|
                        0 <= zz <= z && 0 <= xx <= n && (zz < z || xx < x) implies #[trigger] normal_ok(
                        normals@,
                        y_vals@,
                        n as int,
                        zz,
                        xx,
                    ) by {
                        lemma_row_major_lt((n as int) + 1, zz, xx, z as int, x as int);
                        assert(normal_ok(pre, y_vals@, n as int, zz, xx));
                        assert(3 * spec_vertex_index(n as int, zz, xx) + 2 < pre.len());
                    }
                }
                x += 1;
            }
            proof {
                assert((z as int + 1) * ((n as int) + 1) == (z as int) * ((n as int) + 1) + (
                (n as int) + 1)) by (nonlinear_arith);
            }
            z += 1;
        }
        proof {
            assert(3 * ((n as int + 1) * (n as int + 1)) == 3 * (n as int + 1) * (n as int + 1)) by (
            nonlinear_arith);
        }
        normals
    }
}

/// One component of the normalized vector: `c * SCALE / len`, truncated
/// toward zero.  Because `|c| <= len`, the result stays within one unit.
fn normalized_component(c: i64, len: u128) -> (r: i64)
    requires
        1 <= len <= 5_000_000_000_000,
        -(len as int) <= c <= len as int,
    ensures
        r == div_trunc((c as int) * (SCALE as int), len as int),
        -SCALE <= r <= SCALE,
{
    let (mag, neg): (u64, bool) = if c >= 0 {
        (c as u64, false)
    } else {
        ((-c) as u64, true)
    };
    let num: u128 = (mag as u128) * (SCALE as u128);
    let q: u128 = num / len;
    proof {
        assert(num <= (len as int) * (SCALE as int)) by (nonlinear_arith)
            requires
                num == (mag as int) * (SCALE as int),
                mag <= len,
                SCALE == 1_000_000,
        ;
        assert(q <= SCALE) by {
            vstd::arithmetic::div_mod::lemma_div_is_ordered(
                num as int,
                (len as int) * (SCALE as int),
                len as int,
            );
            vstd::arithmetic::div_mod::lemma_div_multiples_vanish(SCALE as int, len as int);
        }
        assert((mag as int) * (SCALE as int) == if c >= 0 {
            (c as int) * (SCALE as int)
        } else {
            -((c as int) * (SCALE as int))
        }) by (nonlinear_arith)
            requires
                mag == if c >= 0 {
                    c as int
                } else {
                    -(c as int)
                },
    ;
    }
    if neg {
        -(q as i64)
    } else {
        q as i64
    }
}

/// The normalized sampling-triangle normal at an interior grid point,
/// computed exactly as `spec_interior_normal` states.
fn interior_normal(s: i64, ya: i64, yb: i64, yc: i64) -> (t: (i64, i64, i64))
    requires
        1 <= s <= 2_000_000,
        -HEIGHT_LIMIT <= ya <= HEIGHT_LIMIT,
        -HEIGHT_LIMIT <= yb <= HEIGHT_LIMIT,
        -HEIGHT_LIMIT <= yc <= HEIGHT_LIMIT,
    ensures
        t.0 == spec_interior_normal(s as int, ya as int, yb as int, yc as int).0,
        t.1 == spec_interior_normal(s as int, ya as int, yb as int, yc as int).1,
        t.2 == spec_interior_normal(s as int, ya as int, yb as int, yc as int).2,
        -SCALE <= t.0 <= SCALE,
        1 <= t.1 <= SCALE,
        -SCALE <= t.2 <= SCALE,
{
    proof {
        lemma_interior_normal_points_up(s as int, ya as int, yb as int, yc as int);
    }
    let dbc: i64 = yb - yc;
    let dab: i64 = ya - yb;
    proof {
        assert(-600_000_000_000 <= (s as int) * (dbc as int) <= 600_000_000_000 && -600_000_000_000
            <= (s as int) * (dab as int) <= 600_000_000_000 && 1 <= (s as int) * (s as int)
            <= 4_000_000_000_000) by (nonlinear_arith)
            requires
                1 <= s <= 2_000_000,
                -300_000 <= dbc <= 300_000,
                -300_000 <= dab <= 300_000,
        ;
    }
    let cx: i64 = s * dbc;
    let cy: i64 = s * s;
    let cz: i64 = s * dab;
    proof {
        assert(0 <= (cx as int) * (cx as int) <= 360_000_000_000_000_000_000_000 && 1 <= (cy as int)
            * (cy as int) <= 16_000_000_000_000_000_000_000_000 && 0 <= (cz as int) * (cz as int)
            <= 360_000_000_000_000_000_000_000) by (nonlinear_arith)
            requires
                -600_000_000_000 <= cx <= 600_000_000_000,
                -600_000_000_000 <= cz <= 600_000_000_000,
                1 <= cy <= 4_000_000_000_000,
        ;
    }
    let cx2: i128 = (cx as i128) * (cx as i128);
    let cy2: i128 = (cy as i128) * (cy as i128);
    let cz2: i128 = (cz as i128) * (cz as i128);
    let len2: u128 = (cx2 + cy2 + cz2) as u128;
    let len: u128 = isqrt(len2);
    proof {
        assert(len >= 1) by (nonlinear_arith)
            requires
                len2 >= 1,
                (len2 as int) < ((len as int) + 1) * ((len as int) + 1),
                0 <= (len as int),
        ;
        assert(len <= 5_000_000_000_000) by (nonlinear_arith)
            requires
                (len as int) * (len as int) <= len2 as int,
                len2 <= 17_000_000_000_000_000_000_000_000u128,
        ;
        assert(-(len as int) <= cx <= len as int && -(len as int) <= cy <= len as int && -(
        len as int) <= cz <= len as int) by (nonlinear_arith)
            requires
                (cx as int) * (cx as int) <= len2 as int,
                (cy as int) * (cy as int) <= len2 as int,
                (cz as int) * (cz as int) <= len2 as int,
                (len2 as int) < ((len as int) + 1) * ((len as int) + 1),
                0 <= len as int,
        ;
        assert(len == sqrt_floor(
            (cx as int) * (cx as int) + (cy as int) * (cy as int) + (cz as int) * (cz as int),
        ));
    }
    let nx: i64 = normalized_component(cx, len);
    let ny: i64 = normalized_component(cy, len);
    let nz: i64 = normalized_component(cz, len);
    (nx, ny, nz)
}

/// Largest magnitude the ripple height takes: `0.15` in fixed point.
pub const HEIGHT_LIMIT: i64 = 150_000;

/// The remapped coordinate of grid line `i`: `3 pi (i - half) / half` with
/// `half = (n + 1) / 2`, i.e. `3 pi (2 i - (n + 1)) / (n + 1)`, truncated.
pub open spec fn spec_scaled_coord(n: int, i: int) -> int {
    div_trunc((2 * i - (n + 1)) * FREQ_FP, n + 1)
}

/// Squared distance of grid point `(z, x)` from the grid centre, in remapped
/// coordinates.
pub open spec fn spec_sq_radius(n: int, z: int, x: int) -> int {
    spec_scaled_coord(n, x) * spec_scaled_coord(n, x) + spec_scaled_coord(n, z) * spec_scaled_coord(
        n,
        z,
    )
}

/// The ripple phase of a grid point: its radial distance plus the time in
/// seconds.
pub open spec fn spec_phase(n: int, z: int, x: int, time: int) -> int {
    sqrt_floor(spec_sq_radius(n, z, x)) + time / 1000
}

/// The ripple height of a grid point: `0.15 sin(radius + time / 1000)` in
/// fixed point.
pub open spec fn spec_height(n: int, z: int, x: int, time: int) -> int {
    div_trunc(3 * sin_fp(spec_phase(n, z, x, time)), 20)
}

/// The ripple is radially symmetric: at any one instant, two grid points
/// equidistant from the grid centre in remapped coordinates have equal
/// height.
pub proof fn lemma_ripple_radial_symmetry(n: int, z1: int, x1: int, z2: int, x2: int, time: int)
    requires
        spec_sq_radius(n, z1, x1) == spec_sq_radius(n, z2, x2),
    ensures
        spec_height(n, z1, x1, time) == spec_height(n, z2, x2, time),
{
}

/// The normal of the sampling triangle at an interior grid point: the cross
/// product of the triangle's edge vectors, normalized in fixed point.  The
/// triangle joins the point (height `ya`), its neighbour one row down
/// (height `yb`), and that neighbour's column neighbour (height `yc`), with
/// `s` the cell edge length.
pub open spec fn spec_interior_normal(s: int, ya: int, yb: int, yc: int) -> (int, int, int) {
    let cx = s * (yb - yc);
    let cy = s * s;
    let cz = s * (ya - yb);
    let len = sqrt_floor(cx * cx + cy * cy + cz * cz);
    (div_trunc(cx * SCALE, len), div_trunc(cy * SCALE, len), div_trunc(cz * SCALE, len))
}

/// With the winding the index buffer fixes, every interior normal points
/// upward: its y component is strictly positive.
pub proof fn lemma_interior_normal_points_up(s: int, ya: int, yb: int, yc: int)
    requires
        1 <= s <= 2_000_000,
        -HEIGHT_LIMIT <= ya <= HEIGHT_LIMIT,
        -HEIGHT_LIMIT <= yb <= HEIGHT_LIMIT,
        -HEIGHT_LIMIT <= yc <= HEIGHT_LIMIT,
    ensures
        spec_interior_normal(s, ya, yb, yc).1 >= 1,
{
    let cx = s * (yb - yc);
    let cy = s * s;
    let cz = s * (ya - yb);
    let len2 = cx * cx + cy * cy + cz * cz;
    let len = sqrt_floor(len2);
    let u = s * s;
    assert(u >= 1) by (nonlinear_arith)
        requires
            u == s * s,
            s >= 1,
    ;
    assert(cx * cx == u * ((yb - yc) * (yb - yc)) && cz * cz == u * ((ya - yb) * (ya - yb)) && cy
        * cy == u * u) by (nonlinear_arith)
        requires
            cx == s * (yb - yc),
            cy == s * s,
            cz == s * (ya - yb),
            u == s * s,
    ;
    assert((yb - yc) * (yb - yc) + (ya - yb) * (ya - yb) <= 180_000_000_000) by (nonlinear_arith)
        requires
            -300_000 <= yb - yc <= 300_000,
            -300_000 <= ya - yb <= 300_000,
    ;
    assert(len2 <= u * 180_000_000_000 + u * u) by (nonlinear_arith)
        requires
            len2 == u * ((yb - yc) * (yb - yc)) + u * u + u * ((ya - yb) * (ya - yb)),
            (yb - yc) * (yb - yc) + (ya - yb) * (ya - yb) <= 180_000_000_000,
            u >= 1,
    ;
    let cys = cy * SCALE;
    assert(cys * cys >= u * 180_000_000_000 + u * u) by (nonlinear_arith)
        requires
            cys == u * 1_000_000,
            u >= 1,
    ;
    assert(len2 >= 1) by (nonlinear_arith)
        requires
            len2 == cx * cx + cy * cy + cz * cz,
            cy >= 1,
    ;
    lemma_sqrt_floor_exists(len2);
    assert(len >= 1) by (nonlinear_arith)
        requires
            len2 >= 1,
            len2 < (len + 1) * (len + 1),
            len >= 0,
    ;
    assert(cys >= len) by (nonlinear_arith)
        requires
            cys * cys >= len2,
            len * len <= len2,
            cys >= 0,
            len >= 0,
    ;
    assert(cys / len >= 1) by {
        vstd::arithmetic::div_mod::lemma_div_is_ordered(len, cys, len);
        vstd::arithmetic::div_mod::lemma_div_by_self(len);
    }
    assert(spec_interior_normal(s, ya, yb, yc).1 == div_trunc(cys, len));
}

/// The normal triple of grid point `(z, x)` stands written in a normal
/// buffer: the fixed up vector on the border (last row or column), the
/// normalized triangle normal in the interior.
pub open spec fn normal_ok(normals: Seq<i64>, y_vals: Seq<i64>, n: int, z: int, x: int) -> bool {
    let base = 3 * spec_vertex_index(n, z, x);
    if z == n || x == n {
        &&& normals[base] == 0
        &&& normals[base + 1] == SCALE
        &&& normals[base + 2] == 0
    } else {
        let ya = y_vals[spec_vertex_index(n, z, x)];
        let yb = y_vals[spec_vertex_index(n, z + 1, x)];
        let yc = y_vals[spec_vertex_index(n, z + 1, x) + 1];
        let t = spec_interior_normal(spec_square_size(n), ya as int, yb as int, yc as int);
        &&& normals[base] == t.0
        &&& normals[base + 1] == t.1
        &&& normals[base + 2] == t.2
    }
}

/// The remapped coordinate of column `i` of an `(n+1)`-line grid, computed
/// exactly as `spec_scaled_coord` states.
fn scaled_coord(n: usize, p: i64, i: usize) -> (sc: i64)
    requires
        1 <= n <= GRID_MAX,
        p == (n + 1) as i64,
        i <= n,
    ensures
        sc == spec_scaled_coord(n as int, i as int),
        -3_000_000_000 <= sc <= 3_000_000_000,
{
    let a: i64 = 2 * (i as i64) - p;
    let sc = mul_div_trunc(a, FREQ_FP, p);
    proof {
        assert(-3_000_000_000 < (a as int) * (FREQ_FP as int) < 3_000_000_000) by (nonlinear_arith)
            requires
                -256 <= a <= 256,
                FREQ_FP == 9_424_779,
        ;
    }
    sc
}

} // verus!
