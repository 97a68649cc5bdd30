use webgl_client::graph3d::Graph3d;
use webgl_client::quad::Quad;
use webgl_client::shader_controller::ShaderType;

const SCALE: i64 = 1_000_000;

/// Floating-point reference for the remapped grid coordinate, mirroring the
/// fixed-point truncation only through its tolerance.
fn scaled_coord_f64(n: usize, i: usize) -> f64 {
    let p = (n + 1) as f64;
    3.0 * std::f64::consts::PI * (2.0 * i as f64 - p) / p
}

fn height_f64(n: usize, z: usize, x: usize, time_ms: f64) -> f64 {
    let sx = scaled_coord_f64(n, x);
    let sz = scaled_coord_f64(n, z);
    0.15 * ((sx * sx + sz * sz).sqrt() + time_ms / 1000.0).sin()
}

#[test]
fn quad_geometry() {
    let q = Quad::new(ShaderType::BasicShader);
    assert_eq!(q.vertices, vec![0, SCALE, 0, 0, SCALE, SCALE, SCALE, 0]);
    assert_eq!(q.indices, vec![0, 1, 2, 2, 1, 3]);
    assert_eq!(q.rect_index_array_length, 6);
}

#[test]
fn grid_has_expected_counts() {
    // (n+1)^2 vertices and 6 n^2 indices, for several resolutions
    for n in [1usize, 2, 5, 100] {
        let g = Graph3d::new(ShaderType::Graph3dShader, n);
        assert_eq!(g.vertices.len(), 3 * (n + 1) * (n + 1));
        assert_eq!(g.indices.len(), 6 * n * n);
        assert_eq!(g.rect_index_array_length, 6 * n * n);
        let limit = ((n + 1) * (n + 1)) as u16;
        assert!(g.indices.iter().all(|&i| i < limit));
    }
}

#[test]
fn grid_first_cell_indices() {
    let g = Graph3d::new(ShaderType::Graph3dShader, 5);
    // cell (0,0) of a 6-point-per-row grid: tl=0, bl=6, br=7, tr=1
    assert_eq!(&g.indices[0..6], &[0, 6, 7, 0, 7, 1]);
    // cell (1,2): tl = 1*6+2 = 8, bl = 14, br = 15, tr = 9
    let base = 6 * (1 * 5 + 2);
    assert_eq!(&g.indices[base..base + 6], &[8, 14, 15, 8, 15, 9]);
}

#[test]
fn grid_positions_span_unit_square() {
    let n = 4usize;
    let g = Graph3d::new(ShaderType::Graph3dShader, n);
    let square = 2 * SCALE / n as i64;
    for z in 0..=n {
        for x in 0..=n {
            let base = 3 * (z * (n + 1) + x);
            assert_eq!(g.vertices[base], -SCALE + x as i64 * square);
            assert_eq!(g.vertices[base + 1], 0);
            assert_eq!(g.vertices[base + 2], -SCALE + z as i64 * square);
        }
    }
}

#[test]
fn heights_track_the_ripple_formula() {
    let n = 8usize;
    let g = Graph3d::new(ShaderType::Graph3dShader, n);
    let time: i64 = 2_500 * SCALE; // 2.5 seconds, in micro-milliseconds
    let y = g.get_updated_3d_y_values(time);
    assert_eq!(y.len(), (n + 1) * (n + 1));
    for z in 0..=n {
        for x in 0..=n {
            let got = y[z * (n + 1) + x] as f64 / SCALE as f64;
            let want = height_f64(n, z, x, 2_500.0);
            assert!(
                (got - want).abs() < 0.01,
                "height at ({z},{x}): got {got}, want {want}"
            );
        }
    }
}

#[test]
fn heights_are_radially_symmetric() {
    // swapping the row and column coordinates preserves the squared radius,
    // so the heights agree exactly
    let n = 7usize;
    let g = Graph3d::new(ShaderType::Graph3dShader, n);
    let y = g.get_updated_3d_y_values(123_456_789);
    for z in 0..=n {
        for x in 0..=n {
            assert_eq!(y[z * (n + 1) + x], y[x * (n + 1) + z]);
        }
    }
}

#[test]
fn border_normals_are_the_up_vector() {
    let n = 6usize;
    let g = Graph3d::new(ShaderType::Graph3dShader, n);
    let y = g.get_updated_3d_y_values(777_000_000);
    let normals = g.get_grid_normals(&y);
    assert_eq!(normals.len(), 3 * (n + 1) * (n + 1));
    for z in 0..=n {
        for x in 0..=n {
            if z == n || x == n {
                let base = 3 * (z * (n + 1) + x);
                assert_eq!(&normals[base..base + 3], &[0, SCALE, 0]);
            }
        }
    }
}

#[test]
fn interior_normals_are_nearly_unit_length() {
    let n = 6usize;
    let g = Graph3d::new(ShaderType::Graph3dShader, n);
    let y = g.get_updated_3d_y_values(777_000_000);
    let normals = g.get_grid_normals(&y);
    for z in 0..n {
        for x in 0..n {
            let base = 3 * (z * (n + 1) + x);
            let nx = normals[base] as f64 / SCALE as f64;
            let ny = normals[base + 1] as f64 / SCALE as f64;
            let nz = normals[base + 2] as f64 / SCALE as f64;
            let len = (nx * nx + ny * ny + nz * nz).sqrt();
            assert!((len - 1.0).abs() < 0.01, "normal length {len} at ({z},{x})");
            assert!(ny > 0.0, "normals point upward");
        }
    }
}

#[test]
fn interior_normal_samples_the_diagonal_height() {
    // the sampling triangle of an interior point takes its third height from
    // the row-below neighbour's column neighbour: raising only that height
    // tilts the normal, and a flat grid keeps it exactly upright
    let n = 2usize;
    let g = Graph3d::new(ShaderType::Graph3dShader, n);

    let flat = vec![0i64; (n + 1) * (n + 1)];
    let normals = g.get_grid_normals(&flat);
    for z in 0..n {
        for x in 0..n {
            let base = 3 * (z * (n + 1) + x);
            assert_eq!(&normals[base..base + 3], &[0, SCALE, 0]);
        }
    }

    let mut bumped = flat.clone();
    bumped[1 * (n + 1) + 1] = 150_000; // the diagonal neighbour of (0,0)
    let normals = g.get_grid_normals(&bumped);
    assert!(normals[0] < 0, "raising the diagonal height tilts the normal");
}

#[test]
fn interior_normals_match_float_cross_product() {
    let n = 5usize;
    let g = Graph3d::new(ShaderType::Graph3dShader, n);
    let y = g.get_updated_3d_y_values(250 * SCALE);
    let normals = g.get_grid_normals(&y);
    let s = (2 * SCALE / n as i64) as f64 / SCALE as f64;
    for z in 0..n {
        for x in 0..n {
            let ya = y[z * (n + 1) + x] as f64 / SCALE as f64;
            let yb = y[(z + 1) * (n + 1) + x] as f64 / SCALE as f64;
            let yc = y[(z + 1) * (n + 1) + x + 1] as f64 / SCALE as f64;
            // triangle a=(0,ya,0), b=(0,yb,s), c=(s,yc,s);
            // normal = normalize(cross(b-a, c-a))
            let e1 = [0.0, yb - ya, s];
            let e2 = [s, yc - ya, s];
            let cx = e1[1] * e2[2] - e1[2] * e2[1];
            let cy = e1[2] * e2[0] - e1[0] * e2[2];
            let cz = e1[0] * e2[1] - e1[1] * e2[0];
            let len = (cx * cx + cy * cy + cz * cz).sqrt();
            let base = 3 * (z * (n + 1) + x);
            let got = [
                normals[base] as f64 / SCALE as f64,
                normals[base + 1] as f64 / SCALE as f64,
                normals[base + 2] as f64 / SCALE as f64,
            ];
            let want = [cx / len, cy / len, cz / len];
            for i in 0..3 {
                assert!(
                    (got[i] - want[i]).abs() < 0.01,
                    "normal component {i} at ({z},{x}): got {}, want {}",
                    got[i],
                    want[i]
                );
            }
        }
    }
}
