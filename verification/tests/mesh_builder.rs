use terrain_mesh::builder::{DensityGrid, GridParams};
use terrain_mesh::math::{isqrt_u128, round_div, Vec3Fx, FP_ONE};
use terrain_mesh::mesh::{assemble_mesh, face_normal, Vec2Fx};
use terrain_mesh::polygonize::Triangle;
use terrain_mesh::streaming::TerrainChunk;

const ISO: i64 = 717;

fn params(resolution: usize) -> GridParams {
    GridParams { resolution, cell_size: FP_ONE, iso_level: ISO }
}

/// A grid where only the lattice point (0, 0, 0) is below the iso-level.
fn single_dip_grid(resolution: usize) -> DensityGrid {
    let side = resolution + 1;
    let mut values = vec![FP_ONE; side * side * side];
    values[0] = 0;
    DensityGrid::from_values(resolution, values).unwrap()
}

#[test]
fn integer_square_roots_are_exact() {
    assert_eq!(isqrt_u128(0), 0);
    assert_eq!(isqrt_u128(1), 1);
    assert_eq!(isqrt_u128(2), 1);
    assert_eq!(isqrt_u128(3), 1);
    assert_eq!(isqrt_u128(4), 2);
    assert_eq!(isqrt_u128(15), 3);
    assert_eq!(isqrt_u128(16), 4);
    assert_eq!(isqrt_u128(1_000_000_000_000), 1_000_000);
    assert_eq!(isqrt_u128(1_000_000_000_001), 1_000_000);
}

#[test]
fn rounding_division_rounds_half_away_from_zero() {
    assert_eq!(round_div(1536, 1024), 2);
    assert_eq!(round_div(-1536, 1024), -2);
    assert_eq!(round_div(512, 1024), 1);
    assert_eq!(round_div(-512, 1024), -1);
    assert_eq!(round_div(511, 1024), 0);
    assert_eq!(round_div(-511, 1024), 0);
    assert_eq!(round_div(3 * 65536, 65536), 3);
    assert_eq!(round_div(0, 1024), 0);
}

#[test]
fn face_normal_of_an_axis_aligned_triangle_is_a_unit_axis() {
    let t = Triangle {
        a: Vec3Fx { x: 0, y: 0, z: 0 },
        b: Vec3Fx { x: 1024, y: 0, z: 0 },
        c: Vec3Fx { x: 0, y: 1024, z: 0 },
    };
    // cross((1024,0,0), (0,1024,0)) points along +z with length 1024*1024
    assert_eq!(face_normal(&t), Vec3Fx { x: 0, y: 0, z: FP_ONE });
}

#[test]
fn face_normal_of_a_degenerate_triangle_is_zero() {
    let p = Vec3Fx { x: 17, y: -4, z: 9 };
    let t = Triangle { a: p, b: p, c: p };
    assert_eq!(face_normal(&t), Vec3Fx { x: 0, y: 0, z: 0 });
}

#[test]
fn assembled_payload_has_the_flat_layout() {
    let t1 = Triangle {
        a: Vec3Fx { x: 0, y: 0, z: 0 },
        b: Vec3Fx { x: 1024, y: 0, z: 0 },
        c: Vec3Fx { x: 0, y: 1024, z: 0 },
    };
    let t2 = Triangle {
        a: Vec3Fx { x: 5, y: 6, z: 7 },
        b: Vec3Fx { x: 5, y: 1030, z: 7 },
        c: Vec3Fx { x: 1029, y: 6, z: 7 },
    };
    let m = assemble_mesh(&vec![t1, t2]);
    assert_eq!(m.vertices.len(), 6);
    assert_eq!(m.vertices[0], t1.a);
    assert_eq!(m.vertices[1], t1.b);
    assert_eq!(m.vertices[2], t1.c);
    assert_eq!(m.vertices[3], t2.a);
    assert_eq!(m.indices, (0u32..6).collect::<Vec<u32>>());
    assert_eq!(m.uvs, vec![Vec2Fx { u: 0, v: 0 }; 6]);
    assert_eq!(m.normals.len(), 6);
    assert_eq!(m.normals[0], m.normals[1]);
    assert_eq!(m.normals[1], m.normals[2]);
    assert_eq!(m.normals[3], m.normals[4]);
    assert_eq!(m.normals[4], m.normals[5]);
    assert_eq!(m.normals[0], Vec3Fx { x: 0, y: 0, z: FP_ONE });
}

#[test]
fn an_all_outside_grid_builds_an_empty_mesh() {
    let p = params(4);
    let side = 5;
    let values = vec![FP_ONE; side * side * side];
    let g = DensityGrid::from_values(4, values).unwrap();
    let m = TerrainChunk::generate_mesh(&p, &g);
    assert_eq!(m.vertices.len(), 0);
    assert_eq!(m.indices.len(), 0);
    assert_eq!(m.uvs.len(), 0);
    assert_eq!(m.normals.len(), 0);
}

#[test]
fn a_single_dip_produces_one_triangle_per_touching_cell() {
    // only lattice point (0,0,0) dips below the iso-level; it is corner 0
    // of exactly one cell of a 1-cell chunk
    let m = TerrainChunk::generate_mesh(&params(1), &single_dip_grid(1));
    assert_eq!(m.vertices.len(), 3);
    assert_eq!(m.indices, vec![0, 1, 2]);
    assert_eq!(m.normals.len(), 3);
}

#[test]
fn rebuilding_the_same_chunk_is_byte_identical() {
    let p = params(3);
    let side = 4;
    let mut values = vec![FP_ONE; side * side * side];
    // carve an irregular dip pattern
    for (i, v) in values.iter_mut().enumerate() {
        if i % 7 == 0 {
            *v = -512;
        }
        if i % 11 == 3 {
            *v = 600;
        }
    }
    let g1 = DensityGrid::from_values(3, values.clone()).unwrap();
    let g2 = DensityGrid::from_values(3, values).unwrap();
    let m1 = TerrainChunk::generate_mesh(&p, &g1);
    let m2 = TerrainChunk::generate_mesh(&p, &g2);
    assert!(m1.vertices.len() > 0);
    assert_eq!(m1.vertices, m2.vertices);
    assert_eq!(m1.indices, m2.indices);
    assert_eq!(m1.uvs, m2.uvs);
    assert_eq!(m1.normals, m2.normals);
}

#[test]
fn grid_construction_rejects_bad_input() {
    assert!(DensityGrid::from_values(0, vec![]).is_none());
    assert!(DensityGrid::from_values(2, vec![0; 26]).is_none());
    assert!(DensityGrid::from_values(1, vec![0; 7]).is_none());
    assert!(DensityGrid::from_values(1, vec![i64::MAX; 8]).is_none());
    assert!(DensityGrid::from_values(1, vec![0; 2 * 2 * 2]).is_some());
}
