//! The streaming manager: the registry of materialized chunks, the visible
//! set computed each tick from the viewer's position, and the per-tick diff
//! that evicts chunks out of range and lists the coordinates to spawn.
//!
//! The registry is the single source of truth for which coordinates are
//! loaded; only the manager mutates it. Task handles and renderable handles
//! are opaque host identifiers; the host spawns work, polls it without
//! blocking, and reports completions back through [`Terrain::complete_chunk`]
//! and [`Terrain::fail_chunk`].

use crate::builder::{build_chunk_mesh, spec_chunk_triangles, DensityGrid, GridParams};
use crate::math::{
    lemma_round_div_close, round_div, spec_round_div, Vec3Fx, FP_ONE,
};
use crate::mesh::{mesh_matches, MeshPayload};
use vstd::prelude::*;

verus! {

/// The integer coordinate of a chunk in the chunk grid.
#[derive(Clone, Copy, PartialEq, Eq, Structural, Hash, Debug)]
pub struct ChunkCoord {
    pub x: i32,
    pub y: i32,
    pub z: i32,
}

/// Where a chunk is in its lifecycle, with the opaque host handle that
/// stage owns: a generation task while generating, a renderable mesh once
/// ready.
#[derive(Clone, Copy, PartialEq, Eq, Structural, Debug)]
pub enum ChunkState {
    Generating { task: u64 },
    Ready { mesh: u64 },
}

/// One materialized chunk: its coordinate and its lifecycle state.
#[derive(Clone, Copy, PartialEq, Eq, Structural, Debug)]
pub struct TerrainChunk {
    pub coords: ChunkCoord,
    pub state: ChunkState,
}

impl TerrainChunk {
    /// Build the render payload of one chunk from its sampled density grid:
    /// the CPU generation path.
    pub fn generate_mesh(params: &GridParams, grid: &DensityGrid) -> (m: MeshPayload)
        requires
            params.wf(),
            grid.wf(),
            grid.resolution == params.resolution,
        ensures
            mesh_matches(m, spec_chunk_triangles(*params, *grid)),
    {
        build_chunk_mesh(params, grid)
    }
}

/// The first registry entry at coordinate `c`, scanning from the front;
/// under the registry's uniqueness invariant it is the only one.
pub open spec fn spec_find(s: Seq<TerrainChunk>, c: ChunkCoord) -> Option<TerrainChunk>
    decreases s.len(),
{
    if s.len() == 0 {
        None
    } else if s[0].coords == c {
        Some(s[0])
    } else {
        spec_find(s.drop_first(), c)
    }
}

/// Coordinate `c` is materialized in registry `s`.
pub open spec fn spec_has(s: Seq<TerrainChunk>, c: ChunkCoord) -> bool {
    spec_find(s, c) is Some
}

/// No two registry entries share a coordinate.
pub open spec fn coords_unique(s: Seq<TerrainChunk>) -> bool {
    forall|i: int, j: int|
        0 <= i < j < s.len() ==> (#[trigger] s[i]).coords != (#[trigger] s[j]).coords
}

/// What [`spec_find`] returns, element-wise: a found entry is in the
/// sequence at its coordinate, and a miss means no entry has it.
pub proof fn lemma_find_characterization(s: Seq<TerrainChunk>, c: ChunkCoord)
    ensures
        match spec_find(s, c) {
            Some(ch) => ch.coords == c && exists|i: int|
                0 <= i < s.len() && #[trigger] s[i] == ch,
            None => forall|i: int| 0 <= i < s.len() ==> (#[trigger] s[i]).coords != c,
        },
    decreases s.len(),
{
    if s.len() > 0 {
        if s[0].coords == c {
        } else {
            lemma_find_characterization(s.drop_first(), c);
            match spec_find(s.drop_first(), c) {
                Some(ch) => {
                    let i = choose|i: int|
                        0 <= i < s.drop_first().len() && #[trigger] s.drop_first()[i] == ch;
                    assert(s[i + 1] == ch);
                },
                None => {
                    assert forall|i: int| 0 <= i < s.len() implies (#[trigger] s[i]).coords
                        != c by {
                        if i > 0 {
                            assert(s.drop_first()[i - 1] == s[i]);
                        }
                    }
                },
            }
        }
    }
}

/// In a registry with unique coordinates, an entry at coordinate `c` is
/// what [`spec_find`] returns.
pub proof fn lemma_find_present(s: Seq<TerrainChunk>, i: int)
    requires
        coords_unique(s),
        0 <= i < s.len(),
    ensures
        spec_find(s, s[i].coords) == Some(s[i]),
    decreases s.len(),
{
    if i == 0 {
    } else {
        assert(s[0].coords != s[i].coords);
        assert(s.drop_first()[i - 1] == s[i]);
        assert(coords_unique(s.drop_first())) by {
            assert forall|p: int, q: int|
                0 <= p < q < s.drop_first().len() implies (#[trigger] s.drop_first()[p]).coords
                != (#[trigger] s.drop_first()[q]).coords by {
                assert(s.drop_first()[p] == s[p + 1] && s.drop_first()[q] == s[q + 1]);
            }
        }
        lemma_find_present(s.drop_first(), i - 1);
    }
}

/// The registry and the configuration of the streaming manager.
pub struct Terrain {
    pub chunk_view_distance: u32,
    pub chunk_size: u32,
    pub chunks: Vec<TerrainChunk>,
}

impl Terrain {
    /// The materialized chunks, in registry order.
    pub open spec fn registry(self) -> Seq<TerrainChunk> {
        self.chunks@
    }

    /// A usable manager: a positive chunk size, a modest view distance, and
    /// a registry without duplicate coordinates.
    pub open spec fn wf(self) -> bool {
        &&& 0 < self.chunk_size <= 0x100000
        &&& self.chunk_view_distance <= 1024
        &&& coords_unique(self.registry())
    }

    /// The world size of one chunk in fixed-point units.
    pub open spec fn spec_chunk_world(self) -> int {
        self.chunk_size * FP_ONE
    }

    /// A fresh manager: view distance 10 chunks, 64 world units per chunk,
    /// nothing materialized.
    pub fn new() -> (t: Terrain)
        ensures
            t.wf(),
            t.chunk_view_distance == 10,
            t.chunk_size == 64,
            t.registry() == Seq::<TerrainChunk>::empty(),
    {
        let t = Terrain { chunk_view_distance: 10, chunk_size: 64, chunks: Vec::new() };
        proof {
            assert(t.registry() =~= Seq::<TerrainChunk>::empty());
        }
        t
    }

    /// The chunk coordinate containing a world position: each axis divided
    /// by the chunk's world size and rounded to the nearest integer.
    pub fn get_chunk_coords_at_translation(&self, translation: &Vec3Fx) -> (c: ChunkCoord)
        requires
            self.wf(),
            -0x10000000000 <= translation.x <= 0x10000000000,
            -0x10000000000 <= translation.y <= 0x10000000000,
            -0x10000000000 <= translation.z <= 0x10000000000,
        ensures
            c.x == spec_round_div(translation.x as int, self.spec_chunk_world()),
            c.y == spec_round_div(translation.y as int, self.spec_chunk_world()),
            c.z == spec_round_div(translation.z as int, self.spec_chunk_world()),
            -0x41000000 <= c.x <= 0x41000000,
            -0x41000000 <= c.y <= 0x41000000,
            -0x41000000 <= c.z <= 0x41000000,
    {
        proof {
            assert(1024 <= self.chunk_size * FP_ONE <= 0x40000000) by (nonlinear_arith)
                requires
                    0 < self.chunk_size <= 0x100000 && FP_ONE == 1024,
            ;
        }
        let world: i64 = (self.chunk_size as i64) * FP_ONE;
        let qx: i64 = round_div(translation.x, world);
        let qy: i64 = round_div(translation.y, world);
        let qz: i64 = round_div(translation.z, world);
        proof {
            lemma_round_div_close(translation.x as int, world as int);
            lemma_round_div_close(translation.y as int, world as int);
            lemma_round_div_close(translation.z as int, world as int);
            assert(-0x41000000 <= qx <= 0x41000000) by (nonlinear_arith)
                requires
                    1024 <= world <= 0x40000000 && -0x10000000000 <= translation.x
                        <= 0x10000000000 && 2 * (translation.x - qx * (world as int)) <= world && 2
                        * (qx * (world as int) - translation.x) <= world,
            ;
            assert(-0x41000000 <= qy <= 0x41000000) by (nonlinear_arith)
                requires
                    1024 <= world <= 0x40000000 && -0x10000000000 <= translation.y
                        <= 0x10000000000 && 2 * (translation.y - qy * (world as int)) <= world && 2
                        * (qy * (world as int) - translation.y) <= world,
            ;
            assert(-0x41000000 <= qz <= 0x41000000) by (nonlinear_arith)
                requires
                    1024 <= world <= 0x40000000 && -0x10000000000 <= translation.z
                        <= 0x10000000000 && 2 * (translation.z - qz * (world as int)) <= world && 2
                        * (qz * (world as int) - translation.z) <= world,
            ;
        }
        ChunkCoord { x: qx as i32, y: qy as i32, z: qz as i32 }
    }

    /// The registry entry at a coordinate, if that coordinate is
    /// materialized.
    pub fn get_chunk(&self, x: i32, y: i32, z: i32) -> (r: Option<&TerrainChunk>)
        requires
            self.wf(),
        ensures
            match r {
                Some(ch) => spec_find(self.registry(), ChunkCoord { x, y, z }) == Some(*ch),
                None => spec_find(self.registry(), ChunkCoord { x, y, z }) is None,
            },
    {
        let c = ChunkCoord { x, y, z };
        let n: usize = self.chunks.len();
        let mut i: usize = 0;
        while i < n
            invariant
                i <= n,
                n == self.registry().len(),
                self.wf(),
                c == (ChunkCoord { x, y, z }),
                forall|q: int| 0 <= q < i ==> (#[trigger] self.registry()[q]).coords != c,
            decreases n - i,
        {
            if self.chunks[i].coords.x == x && self.chunks[i].coords.y == y && self.chunks[i].coords.z
                == z {
                proof {
                    lemma_find_present(self.registry(), i as int);
                }
                return Some(&self.chunks[i]);
            }
            i = i + 1;
        }
        proof {
            lemma_find_characterization(self.registry(), c);
            if spec_find(self.registry(), c) is Some {
                let ch = spec_find(self.registry(), c)->Some_0;
                let w = choose|w: int|
                    0 <= w < self.registry().len() && #[trigger] self.registry()[w] == ch;
                assert(self.registry()[w].coords == c);
            }
        }
        None
    }

    /// Whether a coordinate is currently materialized.
    pub fn has_chunk(&self, x: i32, y: i32, z: i32) -> (b: bool)
        requires
            self.wf(),
        ensures
            b == spec_has(self.registry(), ChunkCoord { x, y, z }),
    {
        match self.get_chunk(x, y, z) {
            Some(_) => true,
            None => false,
        }
    }

    /// Materialize or update the chunk at a coordinate: afterwards the
    /// registry holds exactly the given state there, and every other
    /// coordinate is untouched.
    pub fn set_chunk(&mut self, x: i32, y: i32, z: i32, state: ChunkState)
        requires
            old(self).wf(),
        ensures
            final(self).wf(),
            final(self).chunk_size == old(self).chunk_size,
            final(self).chunk_view_distance == old(self).chunk_view_distance,
            spec_find(final(self).registry(), ChunkCoord { x, y, z }) == Some(
                TerrainChunk { coords: ChunkCoord { x, y, z }, state },
            ),
            forall|c: ChunkCoord|
                c != (ChunkCoord { x, y, z }) ==> #[trigger] spec_find(final(self).registry(), c)
                    == spec_find(old(self).registry(), c),
            final(self).registry().len() == old(self).registry().len() + (if spec_has(
                old(self).registry(),
                ChunkCoord { x, y, z },
            ) {
                0int
            } else {
                1int
            }),
    {
        let coords = ChunkCoord { x, y, z };
        let rec = TerrainChunk { coords, state };
        let ghost s0 = self.registry();
        let n: usize = self.chunks.len();
        let mut i: usize = 0;
        while i < n
            invariant
                i <= n,
                n == self.registry().len(),
                self.wf(),
                self.registry() == s0,
                s0 == old(self).registry(),
                self.chunk_size == old(self).chunk_size,
                self.chunk_view_distance == old(self).chunk_view_distance,
                coords == (ChunkCoord { x, y, z }),
                rec == (TerrainChunk { coords, state }),
                forall|q: int| 0 <= q < i ==> (#[trigger] self.registry()[q]).coords != coords,
            decreases n - i,
        {
            if self.chunks[i].coords.x == x && self.chunks[i].coords.y == y && self.chunks[i].coords.z
                == z {
                proof {
                    lemma_find_present(s0, i as int);
                }
                self.chunks.set(i, rec);
                proof {
                    let s1 = self.registry();
                    assert(s1 == s0.update(i as int, rec));
                    assert(coords_unique(s1)) by {
                        assert forall|p: int, q: int| 0 <= p < q < s1.len() implies (
                        #[trigger] s1[p]).coords != (#[trigger] s1[q]).coords by {
                            assert(s0[p].coords != s0[q].coords);
                        }
                    }
                    lemma_find_present(s1, i as int);
                    assert forall|c: ChunkCoord| c != coords implies #[trigger] spec_find(s1, c)
                        == spec_find(s0, c) by {
                        lemma_find_characterization(s0, c);
                        lemma_find_characterization(s1, c);
                        match spec_find(s0, c) {
                            Some(ch) => {
                                let w = choose|w: int| 0 <= w < s0.len() && #[trigger] s0[w] == ch;
                                assert(w != i);
                                assert(s1[w] == ch);
                                lemma_find_present(s1, w);
                            },
                            None => {
                                match spec_find(s1, c) {
                                    Some(ch2) => {
                                        let w2 = choose|w2: int|
                                            0 <= w2 < s1.len() && #[trigger] s1[w2] == ch2;
                                        assert(w2 != i);
                                        assert(s0[w2] == ch2);
                                    },
                                    None => {},
                                }
                            },
                        }
                    }
                }
                return ;
            }
            i = i + 1;
        }
        proof {
            lemma_find_characterization(s0, coords);
            if spec_find(s0, coords) is Some {
                let ch = spec_find(s0, coords)->Some_0;
                let w = choose|w: int| 0 <= w < s0.len() && #[trigger] s0[w] == ch;
                assert(s0[w].coords == coords);
            }
        }
        self.chunks.push(rec);
        proof {
            let s1 = self.registry();
            assert(s1 == s0.push(rec));
            assert(coords_unique(s1)) by {
                assert forall|p: int, q: int| 0 <= p < q < s1.len() implies (#[trigger] s1[p]).coords
                    != (#[trigger] s1[q]).coords by {
                    if q < s0.len() {
                        assert(s1[p] == s0[p] && s1[q] == s0[q]);
                    } else {
                        assert(s1[q] == rec && s1[p] == s0[p]);
                    }
                }
            }
            lemma_find_present(s1, s0.len() as int);
            assert(s1[s0.len() as int] == rec);
            assert forall|c: ChunkCoord| c != coords implies #[trigger] spec_find(s1, c)
                == spec_find(s0, c) by {
                lemma_find_characterization(s0, c);
                lemma_find_characterization(s1, c);
                match spec_find(s0, c) {
                    Some(ch) => {
                        let w = choose|w: int| 0 <= w < s0.len() && #[trigger] s0[w] == ch;
                        assert(s1[w] == ch);
                        lemma_find_present(s1, w);
                    },
                    None => {
                        match spec_find(s1, c) {
                            Some(ch2) => {
                                let w2 = choose|w2: int|
                                    0 <= w2 < s1.len() && #[trigger] s1[w2] == ch2;
                                assert(w2 < s0.len());
                                assert(s0[w2] == ch2);
                            },
                            None => {},
                        }
                    },
                }
            }
        }
    }

    /// Remove the chunk at a coordinate, if materialized: afterwards the
    /// coordinate is absent and every other coordinate is untouched.
    pub fn remove_chunk(&mut self, x: i32, y: i32, z: i32)
        requires
            old(self).wf(),
        ensures
            final(self).wf(),
            final(self).chunk_size == old(self).chunk_size,
            final(self).chunk_view_distance == old(self).chunk_view_distance,
            spec_find(final(self).registry(), ChunkCoord { x, y, z }) is None,
            forall|c: ChunkCoord|
                c != (ChunkCoord { x, y, z }) ==> #[trigger] spec_find(final(self).registry(), c)
                    == spec_find(old(self).registry(), c),
            final(self).registry().len() == old(self).registry().len() - (if spec_has(
                old(self).registry(),
                ChunkCoord { x, y, z },
            ) {
                1int
            } else {
                0int
            }),
    {
        let coords = ChunkCoord { x, y, z };
        let ghost s0 = self.registry();
        let n: usize = self.chunks.len();
        let mut i: usize = 0;
        while i < n
            invariant
                i <= n,
                n == self.registry().len(),
                self.wf(),
                self.registry() == s0,
                s0 == old(self).registry(),
                self.chunk_size == old(self).chunk_size,
                self.chunk_view_distance == old(self).chunk_view_distance,
                coords == (ChunkCoord { x, y, z }),
                forall|q: int| 0 <= q < i ==> (#[trigger] self.registry()[q]).coords != coords,
            decreases n - i,
        {
            if self.chunks[i].coords.x == x && self.chunks[i].coords.y == y && self.chunks[i].coords.z
                == z {
                proof {
                    lemma_find_present(s0, i as int);
                }
                self.chunks.remove(i);
                proof {
                    let s1 = self.registry();
                    assert(s1 == s0.remove(i as int));
                    assert(forall|w: int|
                        0 <= w < s1.len() ==> #[trigger] s1[w] == (if w < i {
                            s0[w]
                        } else {
                            s0[w + 1]
                        }));
                    assert(coords_unique(s1)) by {
                        assert forall|p: int, q: int| 0 <= p < q < s1.len() implies (
                        #[trigger] s1[p]).coords != (#[trigger] s1[q]).coords by {}
                    }
                    lemma_find_characterization(s1, coords);
                    if spec_find(s1, coords) is Some {
                        let ch = spec_find(s1, coords)->Some_0;
                        let w = choose|w: int| 0 <= w < s1.len() && #[trigger] s1[w] == ch;
                        if w < i {
                            assert(s0[w].coords != coords);
                        } else {
                            assert(s0[w + 1].coords == coords && s0[i as int].coords == coords);
                        }
                    }
                    assert forall|c: ChunkCoord| c != coords implies #[trigger] spec_find(s1, c)
                        == spec_find(s0, c) by {
                        lemma_find_characterization(s0, c);
                        lemma_find_characterization(s1, c);
                        match spec_find(s0, c) {
                            Some(ch) => {
                                let w = choose|w: int| 0 <= w < s0.len() && #[trigger] s0[w] == ch;
                                assert(w != i);
                                if w < i {
                                    assert(s1[w] == ch);
                                    lemma_find_present(s1, w);
                                } else {
                                    assert(s1[w - 1] == ch);
                                    lemma_find_present(s1, w - 1);
                                }
                            },
                            None => {
                                match spec_find(s1, c) {
                                    Some(ch2) => {
                                        let w2 = choose|w2: int|
                                            0 <= w2 < s1.len() && #[trigger] s1[w2] == ch2;
                                        if w2 < i {
                                            assert(s0[w2] == ch2);
                                        } else {
                                            assert(s0[w2 + 1] == ch2);
                                        }
                                    },
                                    None => {},
                                }
                            },
                        }
                    }
                }
                return ;
            }
            i = i + 1;
        }
        proof {
            lemma_find_characterization(s0, coords);
            if spec_find(s0, coords) is Some {
                let ch = spec_find(s0, coords)->Some_0;
                let w = choose|w: int| 0 <= w < s0.len() && #[trigger] s0[w] == ch;
                assert(s0[w].coords == coords);
            }
        }
    }
}

/// Squared distance between two chunk coordinates in chunk units.
pub open spec fn spec_dist2(a: ChunkCoord, b: ChunkCoord) -> int {
    (a.x - b.x) * (a.x - b.x) + (a.y - b.y) * (a.y - b.y) + (a.z - b.z) * (a.z - b.z)
}

/// A coordinate is visible when its squared chunk-grid distance from the
/// viewer's chunk is at most the squared view distance.
pub open spec fn spec_visible(center: ChunkCoord, d: int, c: ChunkCoord) -> bool {
    spec_dist2(center, c) <= d * d
}

/// Each axis of a visible coordinate is within the view distance of the
/// viewer's chunk.
pub proof fn lemma_visible_component_bounds(center: ChunkCoord, d: int, c: ChunkCoord)
    requires
        d >= 0,
        spec_visible(center, d, c),
    ensures
        -d <= c.x - center.x <= d,
        -d <= c.y - center.y <= d,
        -d <= c.z - center.z <= d,
{
    let dx = center.x - c.x;
    let dy = center.y - c.y;
    let dz = center.z - c.z;
    assert(-d <= dx <= d && -d <= dy <= d && -d <= dz <= d) by (nonlinear_arith)
        requires
            d >= 0 && dx * dx + dy * dy + dz * dz <= d * d,
    ;
}

/// Increasing the view distance never removes a visible coordinate: the
/// visible set only grows.
pub proof fn lemma_visibility_monotonic(center: ChunkCoord, d1: int, d2: int, c: ChunkCoord)
    requires
        0 <= d1 <= d2,
        spec_visible(center, d1, c),
    ensures
        spec_visible(center, d2, c),
{
    assert(d1 * d1 <= d2 * d2) by (nonlinear_arith)
        requires
            0 <= d1 <= d2,
    ;
}

/// With view distance zero, exactly the viewer's own chunk is visible.
pub proof fn lemma_zero_view_distance(center: ChunkCoord, c: ChunkCoord)
    ensures
        spec_visible(center, 0, c) <==> c == center,
{
    if spec_visible(center, 0, c) {
        lemma_visible_component_bounds(center, 0, c);
        assert(c == center);
    }
    if c == center {
        assert(spec_dist2(center, c) == 0);
    }
}

/// Whether `c` is visible from `center`, decided in wide arithmetic so any
/// coordinates are acceptable.
fn is_visible(center: &ChunkCoord, d: u32, c: &ChunkCoord) -> (b: bool)
    ensures
        b == spec_visible(*center, d as int, *c),
{
    let dx: i128 = (center.x as i128) - (c.x as i128);
    let dy: i128 = (center.y as i128) - (c.y as i128);
    let dz: i128 = (center.z as i128) - (c.z as i128);
    proof {
        assert forall|p: i128|
            -0x100000000 <= p <= 0x100000000 implies 0 <= #[trigger] (p * p)
                <= 0x10000000000000000 by {
            assert(0 <= p * p <= 0x10000000000000000) by (nonlinear_arith)
                requires
                    -0x100000000 <= p <= 0x100000000,
            ;
        }
    }
    let dist2: i128 = dx * dx + dy * dy + dz * dz;
    let dd: i128 = (d as i128) * (d as i128);
    dist2 <= dd
}

/// Every coordinate visible from `center`, each exactly once.
pub fn visible_chunk_coords(center: &ChunkCoord, view_distance: u32) -> (v: Vec<ChunkCoord>)
    requires
        view_distance <= 1024,
        -0x7f000000 <= center.x <= 0x7f000000,
        -0x7f000000 <= center.y <= 0x7f000000,
        -0x7f000000 <= center.z <= 0x7f000000,
    ensures
        forall|c: ChunkCoord| #[trigger]
            v@.contains(c) <==> spec_visible(*center, view_distance as int, c),
        forall|i: int, j: int| 0 <= i < j < v@.len() ==> v@[i] != v@[j],
{
    let d: i32 = view_distance as i32;
    let ghost dd = view_distance as int;
    let mut v: Vec<ChunkCoord> = Vec::new();
    let mut dx: i32 = -d;
    proof {
        assert forall|c: ChunkCoord| #[trigger]
            v@.contains(c) <==> (spec_visible(*center, dd, c) && c.x - center.x < dx) by {
            if spec_visible(*center, dd, c) {
                lemma_visible_component_bounds(*center, dd, c);
            }
        }
    }
    while dx <= d
        invariant
            view_distance <= 1024,
            d == view_distance,
            dd == view_distance as int,
            -0x7f000000 <= center.x <= 0x7f000000,
            -0x7f000000 <= center.y <= 0x7f000000,
            -0x7f000000 <= center.z <= 0x7f000000,
            -d <= dx <= d + 1,
            forall|c: ChunkCoord| #[trigger]
                v@.contains(c) <==> (spec_visible(*center, dd, c) && c.x - center.x < dx),
            forall|i: int, j: int| 0 <= i < j < v@.len() ==> v@[i] != v@[j],
        decreases d + 1 - dx,
    {
        let mut dy: i32 = -d;
        proof {
            assert forall|c: ChunkCoord| #[trigger]
                v@.contains(c) <==> (spec_visible(*center, dd, c) && (c.x - center.x < dx || (c.x
                    - center.x == dx && c.y - center.y < dy))) by {
                if spec_visible(*center, dd, c) {
                    lemma_visible_component_bounds(*center, dd, c);
                }
            }
        }
        while dy <= d
            invariant
                view_distance <= 1024,
                d == view_distance,
                dd == view_distance as int,
                -0x7f000000 <= center.x <= 0x7f000000,
                -0x7f000000 <= center.y <= 0x7f000000,
                -0x7f000000 <= center.z <= 0x7f000000,
                -d <= dx <= d,
                -d <= dy <= d + 1,
                forall|c: ChunkCoord| #[trigger]
                    v@.contains(c) <==> (spec_visible(*center, dd, c) && (c.x - center.x < dx || (
                    c.x - center.x == dx && c.y - center.y < dy))),
                forall|i: int, j: int| 0 <= i < j < v@.len() ==> v@[i] != v@[j],
            decreases d + 1 - dy,
        {
            let mut dz: i32 = -d;
            proof {
                assert forall|c: ChunkCoord| #[trigger]
                    v@.contains(c) <==> (spec_visible(*center, dd, c) && (c.x - center.x < dx || (
                    c.x - center.x == dx && (c.y - center.y < dy || (c.y - center.y == dy && c.z
                        - center.z < dz))))) by {
                    if spec_visible(*center, dd, c) {
                        lemma_visible_component_bounds(*center, dd, c);
                    }
                }
            }
            while dz <= d
                invariant
                    view_distance <= 1024,
                    d == view_distance,
                    dd == view_distance as int,
                    -0x7f000000 <= center.x <= 0x7f000000,
                    -0x7f000000 <= center.y <= 0x7f000000,
                    -0x7f000000 <= center.z <= 0x7f000000,
                    -d <= dx <= d,
                    -d <= dy <= d,
                    -d <= dz <= d + 1,
                    forall|c: ChunkCoord| #[trigger]
                        v@.contains(c) <==> (spec_visible(*center, dd, c) && (c.x - center.x < dx
                            || (c.x - center.x == dx && (c.y - center.y < dy || (c.y - center.y
                            == dy && c.z - center.z < dz))))),
                    forall|i: int, j: int| 0 <= i < j < v@.len() ==> v@[i] != v@[j],
                decreases d + 1 - dz,
            {
                let cand = ChunkCoord { x: center.x + dx, y: center.y + dy, z: center.z + dz };
                let ghost v_old = v@;
                if is_visible(center, view_distance, &cand) {
                    proof {
                        assert(!v_old.contains(cand));
                    }
                    v.push(cand);
                    proof {
                        assert forall|c: ChunkCoord| #[trigger]
                            v@.contains(c) <==> (v_old.contains(c) || c == cand) by {
                            if v@.contains(c) {
                                let w = choose|w: int| 0 <= w < v@.len() && v@[w] == c;
                                if w < v_old.len() {
                                    assert(v_old[w] == c);
                                }
                            }
                            if v_old.contains(c) {
                                let w = choose|w: int| 0 <= w < v_old.len() && v_old[w] == c;
                                assert(v@[w] == c);
                            }
                            if c == cand {
                                assert(v@[v@.len() - 1] == c);
                            }
                        }
                    }
                } else {
                    proof {
                        assert forall|c: ChunkCoord| #[trigger]
                            v@.contains(c) implies c != cand by {}
                    }
                }
                dz = dz + 1;
                proof {
                    assert forall|c: ChunkCoord| #[trigger]
                        v@.contains(c) <==> (spec_visible(*center, dd, c) && (c.x - center.x < dx
                            || (c.x - center.x == dx && (c.y - center.y < dy || (c.y - center.y
                            == dy && c.z - center.z < dz))))) by {
                        if spec_visible(*center, dd, c) && c.x - center.x == dx && c.y - center.y
                            == dy && c.z - center.z == dz - 1 {
                            assert(c == cand);
                        }
                    }
                }
            }
            dy = dy + 1;
            proof {
                assert forall|c: ChunkCoord| #[trigger]
                    v@.contains(c) <==> (spec_visible(*center, dd, c) && (c.x - center.x < dx || (
                    c.x - center.x == dx && c.y - center.y < dy))) by {
                    if spec_visible(*center, dd, c) {
                        lemma_visible_component_bounds(*center, dd, c);
                    }
                }
            }
        }
        dx = dx + 1;
        proof {
            assert forall|c: ChunkCoord| #[trigger]
                v@.contains(c) <==> (spec_visible(*center, dd, c) && c.x - center.x < dx) by {
                if spec_visible(*center, dd, c) {
                    lemma_visible_component_bounds(*center, dd, c);
                }
            }
        }
    }
    proof {
        assert forall|c: ChunkCoord| #[trigger]
            v@.contains(c) <==> spec_visible(*center, dd, c) by {
            if spec_visible(*center, dd, c) {
                lemma_visible_component_bounds(*center, dd, c);
            }
        }
    }
    v
}

/// The registry entries that stay after a tick: those whose coordinate is
/// visible, in registry order.
pub open spec fn spec_keep_visible(s: Seq<TerrainChunk>, center: ChunkCoord, d: int) -> Seq<
    TerrainChunk,
>
    decreases s.len(),
{
    if s.len() == 0 {
        Seq::empty()
    } else {
        let init = spec_keep_visible(s.drop_last(), center, d);
        if spec_visible(center, d, s.last().coords) {
            init.push(s.last())
        } else {
            init
        }
    }
}

/// The registry entries a tick evicts: those whose coordinate fell out of
/// range, in registry order.
pub open spec fn spec_evict_invisible(s: Seq<TerrainChunk>, center: ChunkCoord, d: int) -> Seq<
    TerrainChunk,
>
    decreases s.len(),
{
    if s.len() == 0 {
        Seq::empty()
    } else {
        let init = spec_evict_invisible(s.drop_last(), center, d);
        if spec_visible(center, d, s.last().coords) {
            init
        } else {
            init.push(s.last())
        }
    }
}

/// What stays is exactly what was there and visible.
pub proof fn lemma_keep_visible_membership(s: Seq<TerrainChunk>, center: ChunkCoord, d: int)
    ensures
        forall|t: TerrainChunk| #[trigger]
            spec_keep_visible(s, center, d).contains(t) <==> (s.contains(t) && spec_visible(
                center,
                d,
                t.coords,
            )),
    decreases s.len(),
{
    if s.len() > 0 {
        lemma_keep_visible_membership(s.drop_last(), center, d);
        let kept = spec_keep_visible(s, center, d);
        let init = spec_keep_visible(s.drop_last(), center, d);
        assert forall|t: TerrainChunk| #[trigger]
            kept.contains(t) implies (s.contains(t) && spec_visible(center, d, t.coords)) by {
            let w = choose|w: int| 0 <= w < kept.len() && kept[w] == t;
            if spec_visible(center, d, s.last().coords) && w == kept.len() - 1 {
                assert(t == s.last());
                assert(s[s.len() - 1] == t);
            } else {
                assert(init[w] == t);
                assert(init.contains(t));
                let u = choose|u: int| 0 <= u < s.drop_last().len() && s.drop_last()[u] == t;
                assert(s[u] == t);
            }
        }
        assert forall|t: TerrainChunk|
            s.contains(t) && spec_visible(center, d, t.coords) implies #[trigger] kept.contains(
            t) by {
            let w = choose|w: int| 0 <= w < s.len() && s[w] == t;
            if w == s.len() - 1 {
                assert(kept[kept.len() - 1] == t);
            } else {
                assert(s.drop_last()[w] == t);
                assert(s.drop_last().contains(t));
                assert(init.contains(t));
                let u = choose|u: int| 0 <= u < init.len() && init[u] == t;
                assert(kept[u] == t);
            }
        }
    }
}

/// Filtering the registry by visibility keeps its coordinates unique.
pub proof fn lemma_keep_visible_unique(s: Seq<TerrainChunk>, center: ChunkCoord, d: int)
    requires
        coords_unique(s),
    ensures
        coords_unique(spec_keep_visible(s, center, d)),
    decreases s.len(),
{
    if s.len() > 0 {
        assert(coords_unique(s.drop_last())) by {
            assert forall|p: int, q: int|
                0 <= p < q < s.drop_last().len() implies (#[trigger] s.drop_last()[p]).coords != (
            #[trigger] s.drop_last()[q]).coords by {
                assert(s[p] == s.drop_last()[p] && s[q] == s.drop_last()[q]);
            }
        }
        lemma_keep_visible_unique(s.drop_last(), center, d);
        lemma_keep_visible_membership(s.drop_last(), center, d);
        let kept = spec_keep_visible(s, center, d);
        let init = spec_keep_visible(s.drop_last(), center, d);
        if spec_visible(center, d, s.last().coords) {
            assert forall|p: int, q: int|
                0 <= p < q < kept.len() implies (#[trigger] kept[p]).coords != (
            #[trigger] kept[q]).coords by {
                if q == kept.len() - 1 {
                    assert(kept[p] == init[p]);
                    assert(init.contains(init[p]));
                    let u = choose|u: int|
                        0 <= u < s.drop_last().len() && s.drop_last()[u] == init[p];
                    assert(s[u] == init[p]);
                    assert(s[u].coords != s[s.len() - 1].coords);
                } else {
                    assert(kept[p] == init[p] && kept[q] == init[q]);
                }
            }
        }
    }
}

/// A visible coordinate is materialized after the eviction pass exactly
/// when it was materialized before.
pub proof fn lemma_keep_visible_has(s: Seq<TerrainChunk>, center: ChunkCoord, d: int, c: ChunkCoord)
    requires
        coords_unique(s),
        spec_visible(center, d, c),
    ensures
        spec_has(spec_keep_visible(s, center, d), c) == spec_has(s, c),
{
    lemma_keep_visible_membership(s, center, d);
    lemma_keep_visible_unique(s, center, d);
    let kept = spec_keep_visible(s, center, d);
    lemma_find_characterization(s, c);
    lemma_find_characterization(kept, c);
    match spec_find(s, c) {
        Some(ch) => {
            let w = choose|w: int| 0 <= w < s.len() && #[trigger] s[w] == ch;
            assert(s.contains(ch));
            assert(kept.contains(ch));
            let u = choose|u: int| 0 <= u < kept.len() && kept[u] == ch;
            lemma_find_present(kept, u);
        },
        None => {
            match spec_find(kept, c) {
                Some(ch2) => {
                    let w2 = choose|w2: int| 0 <= w2 < kept.len() && #[trigger] kept[w2] == ch2;
                    assert(kept.contains(ch2));
                    let u2 = choose|u2: int| 0 <= u2 < s.len() && s[u2] == ch2;
                },
                None => {},
            }
        },
    }
}

impl Terrain {
    /// The chunk the viewer stands in, as a spec-level value.
    pub open spec fn spec_viewer_chunk(self, v: Vec3Fx) -> ChunkCoord {
        ChunkCoord {
            x: spec_round_div(v.x as int, self.spec_chunk_world()) as i32,
            y: spec_round_div(v.y as int, self.spec_chunk_world()) as i32,
            z: spec_round_div(v.z as int, self.spec_chunk_world()) as i32,
        }
    }

    /// One tick of the streaming manager: recompute the visible set from
    /// the viewer's position, evict every registry entry whose coordinate
    /// fell out of range, and list the visible coordinates that are not yet
    /// materialized. Eviction is decided before the spawn list is formed.
    /// The caller tears down what came back in the eviction list — each
    /// entry appears exactly once — and spawns generation work for each
    /// listed coordinate, recording it with [`Terrain::set_chunk`].
    pub fn update_chunks(&mut self, viewer: &Vec3Fx) -> (r: (Vec<TerrainChunk>, Vec<ChunkCoord>))
        requires
            old(self).wf(),
            -0x10000000000 <= viewer.x <= 0x10000000000,
            -0x10000000000 <= viewer.y <= 0x10000000000,
            -0x10000000000 <= viewer.z <= 0x10000000000,
        ensures
            final(self).wf(),
            final(self).chunk_size == old(self).chunk_size,
            final(self).chunk_view_distance == old(self).chunk_view_distance,
            final(self).registry() == spec_keep_visible(
                old(self).registry(),
                old(self).spec_viewer_chunk(*viewer),
                old(self).chunk_view_distance as int,
            ),
            r.0@ == spec_evict_invisible(
                old(self).registry(),
                old(self).spec_viewer_chunk(*viewer),
                old(self).chunk_view_distance as int,
            ),
            forall|c: ChunkCoord| #[trigger]
                r.1@.contains(c) <==> (spec_visible(
                    old(self).spec_viewer_chunk(*viewer),
                    old(self).chunk_view_distance as int,
                    c,
                ) && !spec_has(old(self).registry(), c)),
            forall|i: int, j: int| 0 <= i < j < r.1@.len() ==> r.1@[i] != r.1@[j],
    {
        let center = self.get_chunk_coords_at_translation(viewer);
        proof {
            assert(center == self.spec_viewer_chunk(*viewer));
        }
        let vd: u32 = self.chunk_view_distance;
        let ghost dd = vd as int;
        let ghost s0 = self.registry();
        let n: usize = self.chunks.len();
        let mut kept: Vec<TerrainChunk> = Vec::new();
        let mut evicted: Vec<TerrainChunk> = Vec::new();
        let mut i: usize = 0;
        while i < n
            invariant
                i <= n,
                n == self.registry().len(),
                self.wf(),
                self.registry() == s0,
                s0 == old(self).registry(),
                self.chunk_size == old(self).chunk_size,
                self.chunk_view_distance == old(self).chunk_view_distance,
                vd == self.chunk_view_distance,
                dd == vd as int,
                kept@ == spec_keep_visible(s0.take(i as int), center, dd),
                evicted@ == spec_evict_invisible(s0.take(i as int), center, dd),
            decreases n - i,
        {
            let ch = self.chunks[i];
            let vis = is_visible(&center, vd, &ch.coords);
            i = i + 1;
            proof {
                assert(s0.take(i as int).drop_last() =~= s0.take(i - 1));
                assert(s0.take(i as int).last() == s0[i - 1]);
            }
            if vis {
                kept.push(ch);
            } else {
                evicted.push(ch);
            }
        }
        proof {
            assert(s0.take(n as int) =~= s0);
            lemma_keep_visible_unique(s0, center, dd);
        }
        self.chunks = kept;
        let vis_coords = visible_chunk_coords(&center, vd);
        let m: usize = vis_coords.len();
        let mut spawn: Vec<ChunkCoord> = Vec::new();
        let mut j: usize = 0;
        while j < m
            invariant
                j <= m,
                m == vis_coords@.len(),
                self.wf(),
                self.registry() == spec_keep_visible(s0, center, dd),
                s0 == old(self).registry(),
                coords_unique(s0),
                self.chunk_size == old(self).chunk_size,
                self.chunk_view_distance == old(self).chunk_view_distance,
                vd == self.chunk_view_distance,
                dd == vd as int,
                forall|c: ChunkCoord| #[trigger]
                    vis_coords@.contains(c) <==> spec_visible(center, dd, c),
                forall|p: int, q: int|
                    0 <= p < q < vis_coords@.len() ==> vis_coords@[p] != vis_coords@[q],
                forall|c: ChunkCoord| #[trigger]
                    spawn@.contains(c) <==> (vis_coords@.take(j as int).contains(c) && !spec_has(
                    s0,
                    c,
                )),
                forall|p: int, q: int| 0 <= p < q < spawn@.len() ==> spawn@[p] != spawn@[q],
            decreases m - j,
        {
            let c = vis_coords[j];
            let ghost spawn_old = spawn@;
            proof {
                assert(vis_coords@.contains(c)) by {
                    assert(vis_coords@[j as int] == c);
                }
                lemma_keep_visible_has(s0, center, dd, c);
            }
            if !self.has_chunk(c.x, c.y, c.z) {
                proof {
                    if spawn_old.contains(c) {
                        let w = choose|w: int| 0 <= w < spawn_old.len() && spawn_old[w] == c;
                        assert(vis_coords@.take(j as int).contains(c));
                        let u = choose|u: int| 0 <= u < j && vis_coords@.take(j as int)[u] == c;
                        assert(vis_coords@[u] == c && vis_coords@[j as int] == c);
                    }
                }
                spawn.push(c);
                proof {
                    assert forall|c2: ChunkCoord| #[trigger]
                        spawn@.contains(c2) <==> (spawn_old.contains(c2) || c2 == c) by {
                        if spawn@.contains(c2) {
                            let w = choose|w: int| 0 <= w < spawn@.len() && spawn@[w] == c2;
                            if w < spawn_old.len() {
                                assert(spawn_old[w] == c2);
                            }
                        }
                        if spawn_old.contains(c2) {
                            let w = choose|w: int| 0 <= w < spawn_old.len() && spawn_old[w] == c2;
                            assert(spawn@[w] == c2);
                        }
                        if c2 == c {
                            assert(spawn@[spawn@.len() - 1] == c2);
                        }
                    }
                }
            }
            j = j + 1;
            proof {
                assert forall|c2: ChunkCoord| #[trigger]
                    spawn@.contains(c2) <==> (vis_coords@.take(j as int).contains(c2) && !spec_has(
                    s0,
                    c2,
                )) by {
                    let pre = vis_coords@.take(j - 1);
                    let cur = vis_coords@.take(j as int);
                    assert(cur.drop_last() =~= pre);
                    assert(cur.last() == vis_coords@[j - 1]);
                    if cur.contains(c2) {
                        let w = choose|w: int| 0 <= w < cur.len() && cur[w] == c2;
                        if w < j - 1 {
                            assert(pre[w] == c2);
                            assert(pre.contains(c2));
                        }
                    }
                    if pre.contains(c2) {
                        let w = choose|w: int| 0 <= w < pre.len() && pre[w] == c2;
                        assert(cur[w] == c2);
                    }
                    if c2 == vis_coords@[j - 1] {
                        assert(cur[j - 1] == c2);
                    }
                }
            }
        }
        proof {
            assert(vis_coords@.take(m as int) =~= vis_coords@);
        }
        (evicted, spawn)
    }

    /// Integrate a finished generation task: when the coordinate is still
    /// materialized its entry becomes ready with the given renderable
    /// handle; a completion for an evicted coordinate changes nothing and
    /// returns false, telling the caller to release the orphaned result —
    /// exactly once, since the entry is gone.
    pub fn complete_chunk(&mut self, x: i32, y: i32, z: i32, mesh: u64) -> (attached: bool)
        requires
            old(self).wf(),
        ensures
            final(self).wf(),
            final(self).chunk_size == old(self).chunk_size,
            final(self).chunk_view_distance == old(self).chunk_view_distance,
            attached == spec_has(old(self).registry(), ChunkCoord { x, y, z }),
            attached ==> spec_find(final(self).registry(), ChunkCoord { x, y, z }) == Some(
                TerrainChunk {
                    coords: ChunkCoord { x, y, z },
                    state: ChunkState::Ready { mesh },
                },
            ),
            !attached ==> final(self).registry() == old(self).registry(),
            forall|c: ChunkCoord|
                c != (ChunkCoord { x, y, z }) ==> #[trigger] spec_find(final(self).registry(), c)
                    == spec_find(old(self).registry(), c),
            final(self).registry().len() == old(self).registry().len(),
    {
        let present = self.has_chunk(x, y, z);
        if present {
            self.set_chunk(x, y, z, ChunkState::Ready { mesh });
        }
        present
    }

    /// Record that generation for a coordinate failed: its entry is removed
    /// so the coordinate reads as absent and a future visibility pass will
    /// retry it. Returns whether an entry was removed.
    pub fn fail_chunk(&mut self, x: i32, y: i32, z: i32) -> (removed: bool)
        requires
            old(self).wf(),
        ensures
            final(self).wf(),
            final(self).chunk_size == old(self).chunk_size,
            final(self).chunk_view_distance == old(self).chunk_view_distance,
            removed == spec_has(old(self).registry(), ChunkCoord { x, y, z }),
            spec_find(final(self).registry(), ChunkCoord { x, y, z }) is None,
            forall|c: ChunkCoord|
                c != (ChunkCoord { x, y, z }) ==> #[trigger] spec_find(final(self).registry(), c)
                    == spec_find(old(self).registry(), c),
    {
        let present = self.has_chunk(x, y, z);
        self.remove_chunk(x, y, z);
        present
    }

    /// The world-space offset at which a chunk's density grid is sampled:
    /// the chunk centre moved back by half a chunk on each axis, so that
    /// adjacent chunks sample one continuous field.
    pub fn chunk_sample_offset(&self, coords: &ChunkCoord) -> (o: Vec3Fx)
        requires
            self.wf(),
            -0x100000 <= coords.x <= 0x100000,
            -0x100000 <= coords.y <= 0x100000,
            -0x100000 <= coords.z <= 0x100000,
        ensures
            o.x == coords.x * self.spec_chunk_world() - self.spec_chunk_world() / 2,
            o.y == coords.y * self.spec_chunk_world() - self.spec_chunk_world() / 2,
            o.z == coords.z * self.spec_chunk_world() - self.spec_chunk_world() / 2,
    {
        proof {
            assert(1024 <= self.chunk_size * FP_ONE <= 0x40000000) by (nonlinear_arith)
                requires
                    0 < self.chunk_size <= 0x100000 && FP_ONE == 1024,
            ;
            assert forall|ci: int|
                -0x100000 <= ci <= 0x100000 implies -0x4000000000000 <= #[trigger] (ci * (
            self.chunk_size * FP_ONE)) <= 0x4000000000000 by {
                assert(-0x4000000000000 <= ci * (self.chunk_size * FP_ONE) <= 0x4000000000000)
                    by (nonlinear_arith)
                    requires
                        -0x100000 <= ci <= 0x100000 && 1024 <= self.chunk_size * FP_ONE
                            <= 0x40000000,
                ;
            }
        }
        let world: i64 = (self.chunk_size as i64) * FP_ONE;
        let half: i64 = ((world as u64) / 2) as i64;
        Vec3Fx::new(
            (coords.x as i64) * world - half,
            (coords.y as i64) * world - half,
            (coords.z as i64) * world - half,
        )
    }
}

} // verus!
