use terrain_mesh::math::{Vec3Fx, FP_ONE};
use terrain_mesh::polygonize::{config_index, edge_mask, interpolate_crossing, polygonise, Sample};
use terrain_mesh::tables::{EDGE_ENDPOINTS, TRI_SENTINEL, TRI_TABLE};

/// Iso-level used throughout: 0.7 in fixed point.
const ISO: i64 = 717;

/// A unit cell whose corner `i` is inside the surface exactly when bit `i`
/// of `config` is set: inside corners get value 0, outside corners 1024.
fn cell_for_config(config: u8) -> [Sample; 8] {
    let offsets: [[i64; 3]; 8] = [
        [0, 0, 0],
        [1, 0, 0],
        [1, 0, 1],
        [0, 0, 1],
        [0, 1, 0],
        [1, 1, 0],
        [1, 1, 1],
        [0, 1, 1],
    ];
    let mut cell = [Sample { position: Vec3Fx { x: 0, y: 0, z: 0 }, value: 0 }; 8];
    let mut i = 0;
    while i < 8 {
        let inside = (config >> i) & 1 == 1;
        cell[i] = Sample {
            position: Vec3Fx {
                x: offsets[i][0] * FP_ONE,
                y: offsets[i][1] * FP_ONE,
                z: offsets[i][2] * FP_ONE,
            },
            value: if inside { 0 } else { 1024 },
        };
        i += 1;
    }
    cell
}

fn row_triple_count(row: &[u8; 16]) -> usize {
    let mut n = 0;
    while n < 5 && row[3 * n] != TRI_SENTINEL {
        n += 1;
    }
    n
}

#[test]
fn table_rows_are_well_formed() {
    for row in TRI_TABLE.iter() {
        assert_eq!(row.len(), 16);
        assert_eq!(row[15], TRI_SENTINEL);
        let mut seen_sentinel = false;
        for &e in row.iter() {
            assert!(e < 12 || e == TRI_SENTINEL);
            if seen_sentinel {
                assert_eq!(e, TRI_SENTINEL);
            }
            if e == TRI_SENTINEL {
                seen_sentinel = true;
            }
        }
        // triples are complete: the first sentinel sits at a multiple of 3
        let first = row.iter().position(|&e| e == TRI_SENTINEL).unwrap();
        assert_eq!(first % 3, 0);
    }
}

#[test]
fn table_rows_use_exactly_the_crossed_edges() {
    for config in 0..256usize {
        let mut crossed = [false; 12];
        for (e, pair) in EDGE_ENDPOINTS.iter().enumerate() {
            let a = (config >> pair[0]) & 1;
            let b = (config >> pair[1]) & 1;
            crossed[e] = a != b;
        }
        let mut used = [false; 12];
        for &e in TRI_TABLE[config].iter() {
            if e != TRI_SENTINEL {
                used[e as usize] = true;
            }
        }
        assert_eq!(used, crossed, "configuration {}", config);
    }
}

#[test]
fn triangle_count_matches_table_for_all_configurations() {
    for config in 0..256usize {
        let cell = cell_for_config(config as u8);
        assert_eq!(config_index(&cell, ISO), config as u8);
        let tris = polygonise(&cell, ISO);
        assert_eq!(
            tris.len(),
            row_triple_count(&TRI_TABLE[config]),
            "configuration {}",
            config
        );
        assert!(tris.len() <= 5);
    }
}

#[test]
fn uniform_configurations_yield_zero_triangles() {
    assert_eq!(polygonise(&cell_for_config(0x00), ISO).len(), 0);
    assert_eq!(polygonise(&cell_for_config(0xFF), ISO).len(), 0);
}

#[test]
fn all_corners_outside_yields_zero_triangles() {
    // all 8 corner values 1.0, iso-level 0.7: every corner outside
    let mut cell = cell_for_config(0);
    for s in cell.iter_mut() {
        s.value = FP_ONE;
    }
    assert_eq!(config_index(&cell, ISO), 0);
    assert_eq!(polygonise(&cell, ISO).len(), 0);
}

#[test]
fn single_corner_below_iso_yields_one_triangle() {
    for i in 0..8 {
        let config = 1u8 << i;
        let cell = cell_for_config(config);
        assert_eq!(config_index(&cell, ISO), config);
        let tris = polygonise(&cell, ISO);
        assert_eq!(tris.len(), 1, "corner {}", i);
    }
}

#[test]
fn crossing_point_interpolates_exactly() {
    let a = Sample { position: Vec3Fx { x: 0, y: 0, z: 0 }, value: 0 };
    let b = Sample { position: Vec3Fx { x: 1024, y: 0, z: 0 }, value: 1024 };
    let p = interpolate_crossing(&a, &b, 512);
    assert_eq!(p, Vec3Fx { x: 512, y: 0, z: 0 });
    let q = interpolate_crossing(&a, &b, 256);
    assert_eq!(q, Vec3Fx { x: 256, y: 0, z: 0 });
}

#[test]
fn crossing_point_stays_between_the_corners() {
    let a = Sample { position: Vec3Fx { x: -2048, y: 100, z: 7 }, value: -300 };
    let b = Sample { position: Vec3Fx { x: 1024, y: -500, z: 7 }, value: 900 };
    for iso in [-5000i64, -300, -1, 0, 450, 900, 5000] {
        let p = interpolate_crossing(&a, &b, iso);
        assert!(p.x >= -2048 && p.x <= 1024, "iso {}", iso);
        assert!(p.y >= -500 && p.y <= 100, "iso {}", iso);
        assert_eq!(p.z, 7);
    }
}

#[test]
fn equal_corner_values_fall_back_to_the_midpoint() {
    let a = Sample { position: Vec3Fx { x: 0, y: 0, z: 0 }, value: 500 };
    let b = Sample { position: Vec3Fx { x: 1024, y: 512, z: -512 }, value: 500 };
    let p = interpolate_crossing(&a, &b, ISO);
    assert_eq!(p, Vec3Fx { x: 512, y: 256, z: -256 });
}

#[test]
fn complementary_configuration_has_the_same_edge_mask() {
    for config in 0..256usize {
        let cell = cell_for_config(config as u8);
        let flipped = cell_for_config(!(config as u8));
        assert_eq!(
            edge_mask(&cell, ISO),
            edge_mask(&flipped, ISO),
            "configuration {}",
            config
        );
        assert_eq!(
            config_index(&cell, ISO) as u16 + config_index(&flipped, ISO) as u16,
            255
        );
    }
}

#[test]
fn emitted_vertices_stay_inside_the_cell() {
    for config in 0..256usize {
        let cell = cell_for_config(config as u8);
        for t in polygonise(&cell, ISO) {
            for v in [t.a, t.b, t.c] {
                assert!(v.x >= 0 && v.x <= FP_ONE);
                assert!(v.y >= 0 && v.y <= FP_ONE);
                assert!(v.z >= 0 && v.z <= FP_ONE);
            }
        }
    }
}
