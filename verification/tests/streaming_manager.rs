use terrain_mesh::math::Vec3Fx;
use terrain_mesh::streaming::{
    visible_chunk_coords, ChunkCoord, ChunkState, Terrain, TerrainChunk,
};

fn coord(x: i32, y: i32, z: i32) -> ChunkCoord {
    ChunkCoord { x, y, z }
}

fn world_units(t: &Terrain) -> i64 {
    t.chunk_size as i64 * 1024
}

#[test]
fn a_fresh_manager_has_the_default_configuration() {
    let t = Terrain::new();
    assert_eq!(t.chunk_view_distance, 10);
    assert_eq!(t.chunk_size, 64);
    assert!(t.get_chunk(0, 0, 0).is_none());
}

#[test]
fn set_get_and_remove_round_trip() {
    let mut t = Terrain::new();
    assert!(!t.has_chunk(1, 2, 3));
    t.set_chunk(1, 2, 3, ChunkState::Generating { task: 41 });
    assert!(t.has_chunk(1, 2, 3));
    let ch = *t.get_chunk(1, 2, 3).unwrap();
    assert_eq!(ch.coords, coord(1, 2, 3));
    assert_eq!(ch.state, ChunkState::Generating { task: 41 });
    t.set_chunk(1, 2, 3, ChunkState::Ready { mesh: 7 });
    assert_eq!(
        t.get_chunk(1, 2, 3).unwrap().state,
        ChunkState::Ready { mesh: 7 }
    );
    assert!(!t.has_chunk(3, 2, 1));
    t.remove_chunk(1, 2, 3);
    assert!(!t.has_chunk(1, 2, 3));
}

#[test]
fn viewer_position_snaps_to_the_nearest_chunk() {
    let t = Terrain::new();
    let w = world_units(&t);
    let c = t.get_chunk_coords_at_translation(&Vec3Fx { x: 3 * w, y: 0, z: -2 * w });
    assert_eq!(c, coord(3, 0, -2));
    // half a chunk rounds away from zero, matching float rounding
    let c = t.get_chunk_coords_at_translation(&Vec3Fx { x: w / 2, y: -w / 2, z: w / 2 - 1 });
    assert_eq!(c, coord(1, -1, 0));
}

#[test]
fn zero_view_distance_sees_only_the_viewer_chunk() {
    let v = visible_chunk_coords(&coord(0, 0, 0), 0);
    assert_eq!(v, vec![coord(0, 0, 0)]);
}

#[test]
fn view_distance_one_sees_the_six_neighbours() {
    let v = visible_chunk_coords(&coord(2, -1, 5), 1);
    assert_eq!(v.len(), 7);
    assert!(v.contains(&coord(2, -1, 5)));
    assert!(v.contains(&coord(1, -1, 5)));
    assert!(v.contains(&coord(3, -1, 5)));
    assert!(v.contains(&coord(2, -2, 5)));
    assert!(v.contains(&coord(2, 0, 5)));
    assert!(v.contains(&coord(2, -1, 4)));
    assert!(v.contains(&coord(2, -1, 6)));
    // each coordinate appears exactly once
    for (i, a) in v.iter().enumerate() {
        for b in v.iter().skip(i + 1) {
            assert_ne!(a, b);
        }
    }
}

#[test]
fn growing_the_view_distance_only_adds_coordinates() {
    let center = coord(0, 1, 0);
    let small = visible_chunk_coords(&center, 2);
    let large = visible_chunk_coords(&center, 3);
    for c in small.iter() {
        assert!(large.contains(c));
    }
    assert!(large.len() > small.len());
}

#[test]
fn every_visible_coordinate_is_within_the_distance() {
    let center = coord(4, 4, 4);
    for c in visible_chunk_coords(&center, 3) {
        let dx = (c.x - 4) as i64;
        let dy = (c.y - 4) as i64;
        let dz = (c.z - 4) as i64;
        assert!(dx * dx + dy * dy + dz * dz <= 9);
    }
}

#[test]
fn the_first_tick_spawns_the_visible_set() {
    let mut t = Terrain { chunk_view_distance: 1, chunk_size: 64, chunks: Vec::new() };
    let (evicted, spawn) = t.update_chunks(&Vec3Fx { x: 0, y: 0, z: 0 });
    assert!(evicted.is_empty());
    assert_eq!(spawn.len(), 7);
    assert!(spawn.contains(&coord(0, 0, 0)));
    for c in spawn.iter() {
        t.set_chunk(c.x, c.y, c.z, ChunkState::Generating { task: 1 });
    }
    // a second tick from the same spot changes nothing
    let (evicted, spawn) = t.update_chunks(&Vec3Fx { x: 0, y: 0, z: 0 });
    assert!(evicted.is_empty());
    assert!(spawn.is_empty());
    assert!(t.has_chunk(0, 0, 0));
}

#[test]
fn moving_away_evicts_a_loaded_chunk_exactly_once() {
    let mut t = Terrain::new();
    t.set_chunk(5, 0, 0, ChunkState::Ready { mesh: 99 });
    assert!(t.has_chunk(5, 0, 0));
    // viewer far on the +x axis: (5,0,0) falls outside view_distance 10
    let w = world_units(&t);
    let viewer = Vec3Fx { x: 100 * w, y: 0, z: 0 };
    let (evicted, _spawn) = t.update_chunks(&viewer);
    let hits: Vec<&TerrainChunk> =
        evicted.iter().filter(|c| c.coords == coord(5, 0, 0)).collect();
    assert_eq!(hits.len(), 1);
    assert_eq!(hits[0].state, ChunkState::Ready { mesh: 99 });
    assert!(!t.has_chunk(5, 0, 0));
}

#[test]
fn a_chunk_in_range_survives_the_tick() {
    let mut t = Terrain::new();
    t.set_chunk(5, 0, 0, ChunkState::Generating { task: 3 });
    let (evicted, spawn) = t.update_chunks(&Vec3Fx { x: 0, y: 0, z: 0 });
    assert!(evicted.iter().all(|c| c.coords != coord(5, 0, 0)));
    assert!(t.has_chunk(5, 0, 0));
    assert!(spawn.iter().all(|c| *c != coord(5, 0, 0)));
}

#[test]
fn completion_attaches_only_while_the_chunk_is_loaded() {
    let mut t = Terrain::new();
    t.set_chunk(2, 0, 0, ChunkState::Generating { task: 8 });
    assert!(t.complete_chunk(2, 0, 0, 1234));
    assert_eq!(
        t.get_chunk(2, 0, 0).unwrap().state,
        ChunkState::Ready { mesh: 1234 }
    );
    // a completion for an evicted coordinate is reported for cleanup
    t.remove_chunk(2, 0, 0);
    assert!(!t.complete_chunk(2, 0, 0, 5678));
    assert!(!t.has_chunk(2, 0, 0));
}

#[test]
fn a_failed_chunk_reads_as_absent_and_is_respawned() {
    let mut t = Terrain { chunk_view_distance: 0, chunk_size: 64, chunks: Vec::new() };
    let (_, spawn) = t.update_chunks(&Vec3Fx { x: 0, y: 0, z: 0 });
    assert_eq!(spawn, vec![coord(0, 0, 0)]);
    t.set_chunk(0, 0, 0, ChunkState::Generating { task: 1 });
    assert!(t.fail_chunk(0, 0, 0));
    assert!(!t.has_chunk(0, 0, 0));
    // the next tick offers the coordinate again
    let (_, spawn) = t.update_chunks(&Vec3Fx { x: 0, y: 0, z: 0 });
    assert_eq!(spawn, vec![coord(0, 0, 0)]);
    assert!(!t.fail_chunk(0, 0, 0));
}

#[test]
fn sampling_offset_centres_the_chunk() {
    let t = Terrain::new();
    let w = world_units(&t);
    let o = t.chunk_sample_offset(&coord(0, 0, 0));
    assert_eq!(o, Vec3Fx { x: -w / 2, y: -w / 2, z: -w / 2 });
    let o = t.chunk_sample_offset(&coord(2, -1, 3));
    assert_eq!(
        o,
        Vec3Fx { x: 2 * w - w / 2, y: -w - w / 2, z: 3 * w - w / 2 }
    );
}
