//! The chunk mesh builder's input model: the grid parameters of a chunk and
//! the density values sampled at its lattice points, and the builder itself,
//! which runs the polygonizer over every cell of the grid and assembles the
//! flat render payload.
//!
//! The density field itself lives outside the library (a coherent-noise
//! function of position and a fixed seed); the builder consumes its values
//! sampled at the `(resolution + 1)^3` lattice points of one chunk, already
//! quantized to fixed point. Mesh vertices are chunk-local; the host places
//! the chunk in the world by its transform.

use crate::math::{lies_between, pos_in_range, val_in_range, Vec3Fx, POS_LIMIT, VAL_LIMIT};
use crate::mesh::{
    assemble_mesh, mesh_matches, spec_face_normal, triangle_span_ok, MeshPayload, SPAN_LIMIT,
};
use crate::polygonize::{
    cell_in_range, edge_corner, lemma_crossing_between, lemma_edge_endpoints_in_range,
    point_is_crossing, polygonise, sample_in_range, spec_polygonise, triangle_from_crossings,
    Sample, Triangle,
};
use crate::tables::CORNER_OFFSETS;
use vstd::prelude::*;

verus! {

/// Largest cells-per-axis resolution the builder accepts.
pub const MAX_RESOLUTION: usize = 256;

/// Largest cell size, in fixed-point world units.
pub const MAX_CELL_SIZE: i64 = 0x100000;

/// The fixed per-chunk parameters: cells per axis, the world size of one
/// cell, and the iso-level that defines the surface.
#[derive(Clone, Copy, Debug)]
pub struct GridParams {
    pub resolution: usize,
    pub cell_size: i64,
    pub iso_level: i64,
}

impl GridParams {
    /// Parameters the builder can work with: a positive resolution and an
    /// even, positive cell size, all small enough that every position of
    /// the chunk stays within the library's coordinate range.
    pub open spec fn wf(self) -> bool {
        &&& 0 < self.resolution <= MAX_RESOLUTION
        &&& 0 < self.cell_size <= MAX_CELL_SIZE
        &&& self.cell_size % 2 == 0
        &&& val_in_range(self.iso_level)
    }

    /// Half the world extent of the chunk: corners range over
    /// `[-half, half]` so the chunk is centred on its origin.
    pub open spec fn spec_half_extent(self) -> int {
        (self.resolution * self.cell_size) / 2
    }
}

/// The density values of one chunk, sampled at the `(resolution + 1)^3`
/// lattice points, x varying fastest and z slowest.
#[derive(Clone, Debug)]
pub struct DensityGrid {
    pub resolution: usize,
    pub values: Vec<i64>,
}

/// Index of lattice point `(x, y, z)` in a grid of resolution `r`.
pub open spec fn spec_grid_index(r: int, x: int, y: int, z: int) -> int {
    (z * (r + 1) + y) * (r + 1) + x
}

impl DensityGrid {
    pub open spec fn wf(self) -> bool {
        &&& 0 < self.resolution <= MAX_RESOLUTION
        &&& self.values@.len() == (self.resolution + 1) * (self.resolution + 1) * (self.resolution
            + 1)
        &&& forall|i: int| 0 <= i < self.values@.len() ==> val_in_range(#[trigger] self.values@[i])
    }

    pub open spec fn spec_value_at(self, x: int, y: int, z: int) -> i64 {
        self.values@[spec_grid_index(self.resolution as int, x, y, z)]
    }

    /// Build a grid from sampled values, rejecting a value list of the
    /// wrong length or with values outside the library's range.
    pub fn from_values(resolution: usize, values: Vec<i64>) -> (r: Option<DensityGrid>)
        ensures
            match r {
                Some(g) => {
                    &&& g.wf()
                    &&& g.resolution == resolution
                    &&& g.values@ == values@
                },
                None => {
                    ||| !(0 < resolution <= MAX_RESOLUTION)
                    ||| values@.len() != (resolution + 1) * (resolution + 1) * (resolution + 1)
                    ||| exists|i: int|
                        0 <= i < values@.len() && !val_in_range(#[trigger] values@[i])
                },
            },
    {
        if resolution == 0 || resolution > MAX_RESOLUTION {
            return None;
        }
        let side: usize = resolution + 1;
        proof {
            assert(side * side <= 0x10201 && side * side * side <= 0x20000000) by (
            nonlinear_arith)
                requires
                    side <= 257,
            ;
        }
        let expected: usize = side * side * side;
        if values.len() != expected {
            return None;
        }
        let mut i: usize = 0;
        while i < expected
            invariant
                i <= expected,
                expected == values@.len(),
                forall|q: int| 0 <= q < i ==> val_in_range(#[trigger] values@[q]),
            decreases expected - i,
        {
            let v = values[i];
            if v < -VAL_LIMIT || v > VAL_LIMIT {
                return None;
            }
            i = i + 1;
        }
        Some(DensityGrid { resolution, values })
    }

    /// The sampled value at lattice point `(x, y, z)`.
    pub fn value_at(&self, x: usize, y: usize, z: usize) -> (v: i64)
        requires
            self.wf(),
            x <= self.resolution,
            y <= self.resolution,
            z <= self.resolution,
        ensures
            v == self.spec_value_at(x as int, y as int, z as int),
    {
        let side: usize = self.resolution + 1;
        proof {
            assert(z * side <= 257 * 257) by (nonlinear_arith)
                requires
                    side <= 257 && z < side,
            ;
            assert((z * side + y) * side <= (257 * 257 + 257) * 257) by (nonlinear_arith)
                requires
                    side <= 257 && y < side && z * side <= 257 * 257,
            ;
            assert((z * side + y) * side + x < side * side * side) by (nonlinear_arith)
                requires
                    side <= 257 && x < side && y < side && z < side,
            ;
        }
        self.values[(z * side + y) * side + x]
    }
}

/// Corner `k` of the cell at `(cx, cy, cz)`: its chunk-local position on
/// the lattice and the sampled density there.
pub open spec fn spec_corner_sample(
    p: GridParams,
    g: DensityGrid,
    cx: int,
    cy: int,
    cz: int,
    k: int,
) -> Sample {
    let gx = cx + CORNER_OFFSETS@[k]@[0];
    let gy = cy + CORNER_OFFSETS@[k]@[1];
    let gz = cz + CORNER_OFFSETS@[k]@[2];
    Sample {
        position: Vec3Fx {
            x: (gx * p.cell_size - p.spec_half_extent()) as i64,
            y: (gy * p.cell_size - p.spec_half_extent()) as i64,
            z: (gz * p.cell_size - p.spec_half_extent()) as i64,
        },
        value: g.spec_value_at(gx, gy, gz),
    }
}

/// The 8 corner samples of the cell at `(cx, cy, cz)`.
pub open spec fn spec_cell(p: GridParams, g: DensityGrid, cx: int, cy: int, cz: int) -> Seq<
    Sample,
> {
    Seq::new(8, |k: int| spec_corner_sample(p, g, cx, cy, cz, k))
}

/// The corner offsets are 0 or 1 on each axis.
pub proof fn lemma_corner_offsets_small()
    ensures
        forall|k: int, a: int|
            0 <= k < 8 && 0 <= a < 3 ==> CORNER_OFFSETS@[k]@[a] <= 1,
{
    assert forall|k: int, a: int| 0 <= k < 8 && 0 <= a < 3 implies CORNER_OFFSETS@[k]@[a] <= 1 by {
        if k == 0 {
        } else if k == 1 {
        } else if k == 2 {
        } else if k == 3 {
        } else if k == 4 {
        } else if k == 5 {
        } else if k == 6 {
        } else {
            assert(k == 7);
        }
    }
}

/// A crossing point of a cell lies inside any box that holds all 8 corner
/// positions.
proof fn lemma_crossing_point_in_box(
    cell: Seq<Sample>,
    iso: i64,
    v: Vec3Fx,
    lox: int,
    loy: int,
    loz: int,
    hix: int,
    hiy: int,
    hiz: int,
)
    requires
        cell_in_range(cell),
        val_in_range(iso),
        point_is_crossing(v, cell, iso),
        forall|k: int|
            0 <= k < 8 ==> lox <= (#[trigger] cell[k]).position.x <= hix && loy
                <= cell[k].position.y <= hiy && loz <= cell[k].position.z <= hiz,
    ensures
        lox <= v.x <= hix,
        loy <= v.y <= hiy,
        loz <= v.z <= hiz,
        pos_in_range(v),
{
    lemma_edge_endpoints_in_range();
    let e = choose|e: int|
        0 <= e < 12 && v == crate::polygonize::spec_crossing(
            cell[#[trigger] edge_corner(e, 0)],
            cell[edge_corner(e, 1)],
            iso,
        );
    let sa = cell[edge_corner(e, 0)];
    let sb = cell[edge_corner(e, 1)];
    lemma_crossing_between(sa, sb, iso);
}

/// Every triangle the polygonizer emits for a cell whose corners fit in a
/// box of side at most [`SPAN_LIMIT`] has spans the normal computation can
/// take.
proof fn lemma_box_cell_triangle_spans(
    cell: Seq<Sample>,
    iso: i64,
    t: Triangle,
    lox: int,
    loy: int,
    loz: int,
    hix: int,
    hiy: int,
    hiz: int,
)
    requires
        cell_in_range(cell),
        val_in_range(iso),
        triangle_from_crossings(t, cell, iso),
        forall|k: int|
            0 <= k < 8 ==> lox <= (#[trigger] cell[k]).position.x <= hix && loy
                <= cell[k].position.y <= hiy && loz <= cell[k].position.z <= hiz,
        hix - lox <= SPAN_LIMIT,
        hiy - loy <= SPAN_LIMIT,
        hiz - loz <= SPAN_LIMIT,
    ensures
        triangle_span_ok(t),
{
    lemma_crossing_point_in_box(cell, iso, t.a, lox, loy, loz, hix, hiy, hiz);
    lemma_crossing_point_in_box(cell, iso, t.b, lox, loy, loz, hix, hiy, hiz);
    lemma_crossing_point_in_box(cell, iso, t.c, lox, loy, loz, hix, hiy, hiz);
}

/// One corner sample, executed.
fn corner_sample_at(
    p: &GridParams,
    g: &DensityGrid,
    half: i64,
    cx: usize,
    cy: usize,
    cz: usize,
    k: usize,
) -> (s: Sample)
    requires
        p.wf(),
        g.wf(),
        g.resolution == p.resolution,
        cx < p.resolution,
        cy < p.resolution,
        cz < p.resolution,
        k < 8,
        half == p.spec_half_extent(),
    ensures
        s == spec_corner_sample(*p, *g, cx as int, cy as int, cz as int, k as int),
        sample_in_range(s),
{
    proof {
        lemma_corner_offsets_small();
    }
    let off = crate::tables::corner_offset(k);
    let gx: usize = cx + (off[0] as usize);
    let gy: usize = cy + (off[1] as usize);
    let gz: usize = cz + (off[2] as usize);
    proof {
        assert(0 <= half <= 0x8000000) by (nonlinear_arith)
            requires
                half == (p.resolution * p.cell_size) / 2 && 0 < p.resolution <= 256 && 0
                    < p.cell_size <= 0x100000,
        ;
        assert forall|gi: int| 0 <= gi <= 257 implies 0 <= #[trigger] (gi * p.cell_size)
            <= 0x10100000 by {
            assert(0 <= gi * p.cell_size <= 0x10100000) by (nonlinear_arith)
                requires
                    0 <= gi <= 257 && 0 < p.cell_size <= 0x100000,
            ;
        }
    }
    proof {
        let side = p.resolution as int + 1;
        assert(0 <= (gz * side + gy) * side + gx < side * side * side) by (nonlinear_arith)
            requires
                side <= 257 && 0 <= gx < side && 0 <= gy < side && 0 <= gz < side,
        ;
        assert(spec_grid_index(g.resolution as int, gx as int, gy as int, gz as int) == (gz * side
            + gy) * side + gx);
    }
    let px: i64 = (gx as i64) * p.cell_size - half;
    let py: i64 = (gy as i64) * p.cell_size - half;
    let pz: i64 = (gz as i64) * p.cell_size - half;
    let v: i64 = g.value_at(gx, gy, gz);
    Sample { position: Vec3Fx { x: px, y: py, z: pz }, value: v }
}

/// The 8 corner samples of one cell, executed.
fn cell_samples(p: &GridParams, g: &DensityGrid, cx: usize, cy: usize, cz: usize) -> (c: [Sample;
    8])
    requires
        p.wf(),
        g.wf(),
        g.resolution == p.resolution,
        cx < p.resolution,
        cy < p.resolution,
        cz < p.resolution,
    ensures
        c@ == spec_cell(*p, *g, cx as int, cy as int, cz as int),
        cell_in_range(c@),
{
    proof {
        assert(0 <= p.resolution * p.cell_size <= 0x10000000) by (nonlinear_arith)
            requires
                0 < p.resolution <= 256 && 0 < p.cell_size <= 0x100000,
        ;
    }
    let ext: i64 = (p.resolution as i64) * p.cell_size;
    let half: i64 = ((ext as u64) / 2) as i64;
    let c: [Sample; 8] = [
        corner_sample_at(p, g, half, cx, cy, cz, 0),
        corner_sample_at(p, g, half, cx, cy, cz, 1),
        corner_sample_at(p, g, half, cx, cy, cz, 2),
        corner_sample_at(p, g, half, cx, cy, cz, 3),
        corner_sample_at(p, g, half, cx, cy, cz, 4),
        corner_sample_at(p, g, half, cx, cy, cz, 5),
        corner_sample_at(p, g, half, cx, cy, cz, 6),
        corner_sample_at(p, g, half, cx, cy, cz, 7),
    ];
    assert(c@ =~= spec_cell(*p, *g, cx as int, cy as int, cz as int));
    c
}

/// The triangles of the first `n` cells, cells walked with x fastest and z
/// slowest, exactly as the builder's loop visits them.
pub open spec fn spec_cells_prefix(p: GridParams, g: DensityGrid, n: int) -> Seq<Triangle>
    decreases n,
{
    if n <= 0 {
        Seq::empty()
    } else {
        let r = p.resolution as int;
        spec_cells_prefix(p, g, n - 1) + spec_polygonise(
            spec_cell(p, g, (n - 1) % r, ((n - 1) / r) % r, (n - 1) / (r * r)),
            p.iso_level,
        )
    }
}

/// Every triangle of the whole chunk: the polygonizer's output for all
/// `resolution^3` cells, concatenated in cell order.
pub open spec fn spec_chunk_triangles(p: GridParams, g: DensityGrid) -> Seq<Triangle> {
    spec_cells_prefix(p, g, p.resolution * p.resolution * p.resolution)
}

/// Run the polygonizer over every cell of the chunk and assemble the flat
/// payload. The result is a pure function of the parameters and the density
/// grid: rebuilding the same chunk from the same values gives an identical
/// payload.
pub fn build_chunk_mesh(params: &GridParams, grid: &DensityGrid) -> (m: MeshPayload)
    requires
        params.wf(),
        grid.wf(),
        grid.resolution == params.resolution,
    ensures
        mesh_matches(m, spec_chunk_triangles(*params, *grid)),
{
    let r: usize = params.resolution;
    proof {
        assert(r * r <= 0x10000 && r * r * r <= 0x1000000) by (nonlinear_arith)
            requires
                0 < r <= 256,
        ;
    }
    let total: usize = r * r * r;
    let mut acc: Vec<Triangle> = Vec::new();
    let mut n: usize = 0;
    while n < total
        invariant
            n <= total,
            total == r * r * r,
            r == params.resolution,
            params.wf(),
            grid.wf(),
            grid.resolution == params.resolution,
            r * r <= 0x10000,
            total <= 0x1000000,
            acc@ == spec_cells_prefix(*params, *grid, n as int),
            forall|j: int| 0 <= j < acc@.len() ==> triangle_span_ok(#[trigger] acc@[j]),
            acc@.len() <= 5 * n,
        decreases total - n,
    {
        proof {
            assert(r * r > 0) by (nonlinear_arith)
                requires
                    r > 0,
            ;
        }
        let cx: usize = n % r;
        let cy: usize = (n / r) % r;
        let cz: usize = n / (r * r);
        proof {
            assert(n as int / (r as int * r as int) < r as int) by (nonlinear_arith)
                requires
                    0 < r && n < r as int * r as int * r as int,
            ;
            assert(n % r < r && (n / r) % r < r);
        }
        let cell = cell_samples(params, grid, cx, cy, cz);
        let mut tris = polygonise(&cell, params.iso_level);
        proof {
            lemma_corner_offsets_small();
            let half = params.spec_half_extent();
            let cs = params.cell_size as int;
            assert(0 <= half <= 0x8000000) by (nonlinear_arith)
                requires
                    half == (params.resolution * params.cell_size) / 2 && 0 < params.resolution
                        <= 256 && 0 < params.cell_size <= 0x100000,
            ;
            assert forall|ci: int, oi: int|
                0 <= ci <= 256 && 0 <= oi <= 1 implies ci * cs <= #[trigger] ((ci + oi) * cs) <= (
            ci + 1) * cs && 0 <= ci * cs <= 0x10000000 && (ci + 1) * cs <= 0x10100000 && (ci + 1)
                * cs - ci * cs == cs by {
                assert(ci * cs <= (ci + oi) * cs <= (ci + 1) * cs && 0 <= ci * cs <= 0x10000000 && (
                ci + 1) * cs <= 0x10100000 && (ci + 1) * cs - ci * cs == cs) by (nonlinear_arith)
                    requires
                        0 <= ci <= 256 && 0 <= oi <= 1 && 0 < cs <= 0x100000,
                ;
            }
            let lox = cx * cs - half;
            let loy = cy * cs - half;
            let loz = cz * cs - half;
            let hix = (cx + 1) * cs - half;
            let hiy = (cy + 1) * cs - half;
            let hiz = (cz + 1) * cs - half;
            assert forall|k: int| 0 <= k < 8 implies lox <= (#[trigger] cell@[k]).position.x <= hix
                && loy <= cell@[k].position.y <= hiy && loz <= cell@[k].position.z <= hiz by {
                assert(cell@[k] == spec_corner_sample(
                    *params,
                    *grid,
                    cx as int,
                    cy as int,
                    cz as int,
                    k,
                ));
                let ox = CORNER_OFFSETS@[k]@[0] as int;
                let oy = CORNER_OFFSETS@[k]@[1] as int;
                let oz = CORNER_OFFSETS@[k]@[2] as int;
                assert(0 <= ox <= 1 && 0 <= oy <= 1 && 0 <= oz <= 1);
                assert(cx * cs <= (cx + ox) * cs <= (cx + 1) * cs);
                assert(cy * cs <= (cy + oy) * cs <= (cy + 1) * cs);
                assert(cz * cs <= (cz + oz) * cs <= (cz + 1) * cs);
                assert(cell@[k].position.x == (cx + ox) * cs - half);
                assert(cell@[k].position.y == (cy + oy) * cs - half);
                assert(cell@[k].position.z == (cz + oz) * cs - half);
            }
            assert(hix - lox == cs && hiy - loy == cs && hiz - loz == cs);
            assert forall|j: int| 0 <= j < tris@.len() implies triangle_span_ok(
                #[trigger] tris@[j],
            ) by {
                lemma_box_cell_triangle_spans(
                    cell@,
                    params.iso_level,
                    tris@[j],
                    lox,
                    loy,
                    loz,
                    hix,
                    hiy,
                    hiz,
                );
            }
        }
        acc.append(&mut tris);
        n = n + 1;
        proof {
            assert(acc@ == spec_cells_prefix(*params, *grid, n as int));
        }
    }
    proof {
        assert(3 * acc@.len() <= 0x40000000);
    }
    assemble_mesh(&acc)
}

/// Re-running the chunk mesh builder for the same parameters and the same
/// density values yields an identical payload, array for array: the builder
/// is deterministic.
pub proof fn lemma_chunk_mesh_deterministic(
    m1: MeshPayload,
    m2: MeshPayload,
    p: GridParams,
    g: DensityGrid,
)
    requires
        mesh_matches(m1, spec_chunk_triangles(p, g)),
        mesh_matches(m2, spec_chunk_triangles(p, g)),
    ensures
        m1.vertices@ == m2.vertices@,
        m1.indices@ == m2.indices@,
        m1.uvs@ == m2.uvs@,
        m1.normals@ == m2.normals@,
{
}

} // verus!
