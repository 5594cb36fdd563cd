use terrain_mesh::adapter::{
    finish_readback, repackage_cell_results, required_buffer_len, AdapterError, CellResult,
};
use terrain_mesh::math::{Vec3Fx, FP_ONE, POS_LIMIT};
use terrain_mesh::polygonize::Triangle;

fn tri(x: i64) -> Triangle {
    Triangle {
        a: Vec3Fx { x, y: 0, z: 0 },
        b: Vec3Fx { x: x + FP_ONE, y: 0, z: 0 },
        c: Vec3Fx { x, y: FP_ONE, z: 0 },
    }
}

fn empty_cell() -> CellResult {
    CellResult { triangle_count: 0, triangles: [tri(0); 5] }
}

#[test]
fn buffer_sizing_multiplies_exactly() {
    // a 64^3 chunk with a 208-byte cell record
    assert_eq!(required_buffer_len(64, 208), Some(64 * 64 * 64 * 208));
    assert_eq!(required_buffer_len(0, 208), Some(0));
    assert_eq!(required_buffer_len(1, 4), Some(4));
}

#[test]
fn buffer_sizing_refuses_an_unrepresentable_size() {
    assert_eq!(required_buffer_len(0x10000, 0xffffffff), None);
}

#[test]
fn repackaging_concatenates_the_used_slots() {
    let mut c1 = empty_cell();
    c1.triangle_count = 1;
    c1.triangles[0] = tri(0);
    let mut c2 = empty_cell();
    c2.triangle_count = 2;
    c2.triangles[0] = tri(2048);
    c2.triangles[1] = tri(4096);
    let cells = vec![c1, empty_cell(), c2];
    let m = repackage_cell_results(&cells).unwrap();
    assert_eq!(m.vertices.len(), 9);
    assert_eq!(m.vertices[0], tri(0).a);
    assert_eq!(m.vertices[3], tri(2048).a);
    assert_eq!(m.vertices[6], tri(4096).a);
    assert_eq!(m.indices, (0u32..9).collect::<Vec<u32>>());
    assert_eq!(m.normals.len(), 9);
}

#[test]
fn an_unused_slot_entry_is_ignored() {
    let mut c = empty_cell();
    c.triangle_count = 1;
    c.triangles[0] = tri(0);
    // garbage beyond the count must not surface in the mesh
    c.triangles[4] = tri(1 << 60);
    let m = repackage_cell_results(&vec![c]).unwrap();
    assert_eq!(m.vertices.len(), 3);
}

#[test]
fn a_malformed_count_is_a_typed_error() {
    let mut c = empty_cell();
    c.triangle_count = 6;
    assert!(matches!(
        repackage_cell_results(&vec![empty_cell(), c]),
        Err(AdapterError::MalformedCellCount)
    ));
}

#[test]
fn out_of_range_geometry_is_a_typed_error() {
    let mut c = empty_cell();
    c.triangle_count = 1;
    c.triangles[0] = Triangle {
        a: Vec3Fx { x: POS_LIMIT + 1, y: 0, z: 0 },
        b: Vec3Fx { x: 0, y: 0, z: 0 },
        c: Vec3Fx { x: 0, y: FP_ONE, z: 0 },
    };
    assert!(matches!(
        repackage_cell_results(&vec![c]),
        Err(AdapterError::GeometryOutOfRange)
    ));
}

#[test]
fn a_failed_transfer_is_never_interpreted() {
    assert!(matches!(finish_readback(None), Err(AdapterError::TransferFailed)));
    let cells = vec![empty_cell()];
    let m = finish_readback(Some(&cells)).unwrap();
    assert_eq!(m.vertices.len(), 0);
}
