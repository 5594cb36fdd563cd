//! The CPU side of the compute-offload path: the per-cell records a compute
//! kernel writes into its result buffer, sizing of that buffer, and the
//! repackaging of a completed readback into the same flat payload the CPU
//! builder produces.
//!
//! The device work itself — buffer creation, dispatch, copy, asynchronous
//! map — belongs to the host. The host hands this module the outcome: the
//! decoded cell records when the transfer completed, nothing when the device
//! failed. No partial or corrupt geometry is ever turned into a mesh: a
//! failed transfer and a malformed record both surface as a typed error.

use crate::math::{pos_in_range, Vec3Fx, POS_LIMIT};
use crate::mesh::{
    assemble_mesh, mesh_matches, triangle_span_ok, MeshPayload, SPAN_LIMIT,
};
use crate::polygonize::Triangle;
use vstd::prelude::*;

verus! {

/// Most cells a result buffer may describe in one readback.
pub const MAX_RESULT_CELLS: usize = 0x1000000;

/// One cell's slot in the compute kernel's result buffer: how many of the
/// fixed-capacity five triangles are in use.
#[derive(Clone, Copy, Debug)]
pub struct CellResult {
    pub triangle_count: u32,
    pub triangles: [Triangle; 5],
}

/// Why a readback was not turned into a mesh.
#[derive(Clone, Copy, PartialEq, Eq, Structural, Debug)]
pub enum AdapterError {
    /// The device could not complete the transfer; the buffer was never
    /// interpreted.
    TransferFailed,
    /// A cell slot claims more triangles than its fixed capacity.
    MalformedCellCount,
    /// A triangle in the buffer lies outside the library's coordinate
    /// range.
    GeometryOutOfRange,
}

/// The triangles a cell slot holds: its first `triangle_count` entries.
pub open spec fn spec_cell_triangles(c: CellResult) -> Seq<Triangle> {
    c.triangles@.take(c.triangle_count as int)
}

pub open spec fn spec_cell_count_ok(c: CellResult) -> bool {
    c.triangle_count <= 5
}

pub open spec fn spec_cell_geometry_ok(c: CellResult) -> bool {
    forall|j: int|
        0 <= j < spec_cell_triangles(c).len() ==> triangle_span_ok(
            #[trigger] spec_cell_triangles(c)[j],
        )
}

pub open spec fn spec_cell_ok(c: CellResult) -> bool {
    spec_cell_count_ok(c) && spec_cell_geometry_ok(c)
}

/// All triangles of a result buffer, in cell order.
pub open spec fn spec_results_triangles(cells: Seq<CellResult>) -> Seq<Triangle>
    decreases cells.len(),
{
    if cells.len() == 0 {
        Seq::empty()
    } else {
        spec_results_triangles(cells.drop_last()) + spec_cell_triangles(cells.last())
    }
}

/// Bytes the result buffer of a whole chunk needs: one stride per cell of
/// the `resolution^3` grid, refused when it cannot be represented.
pub fn required_buffer_len(resolution: u32, cell_stride: u32) -> (r: Option<u64>)
    requires
        resolution <= 0x10000,
    ensures
        match r {
            Some(v) => v == resolution * resolution * resolution * cell_stride,
            None => resolution * resolution * resolution * cell_stride > u64::MAX,
        },
{
    let n: u128 = resolution as u128;
    proof {
        assert(n * n <= 0x100000000 && n * n * n <= 0x1000000000000 && n * n * n * (
        cell_stride as u128) <= 0x1000000000000 * 0x100000000) by (nonlinear_arith)
            requires
                n <= 0x10000 && cell_stride <= 0xffffffff,
        ;
    }
    let bytes: u128 = n * n * n * (cell_stride as u128);
    if bytes <= 0xffff_ffff_ffff_ffff {
        Some(bytes as u64)
    } else {
        None
    }
}

/// Whether a triangle is small and central enough for the mesh pipeline,
/// decided at run time: readback data is untrusted.
fn triangle_span_check(t: &Triangle) -> (b: bool)
    ensures
        b == triangle_span_ok(*t),
{
    let ax: i128 = t.a.x as i128;
    let ay: i128 = t.a.y as i128;
    let az: i128 = t.a.z as i128;
    let bx: i128 = t.b.x as i128;
    let by: i128 = t.b.y as i128;
    let bz: i128 = t.b.z as i128;
    let cx: i128 = t.c.x as i128;
    let cy: i128 = t.c.y as i128;
    let cz: i128 = t.c.z as i128;
    let lim: i128 = POS_LIMIT as i128;
    let span: i128 = SPAN_LIMIT as i128;
    let in_range: bool = -lim <= ax && ax <= lim && -lim <= ay && ay <= lim && -lim <= az && az
        <= lim && -lim <= bx && bx <= lim && -lim <= by && by <= lim && -lim <= bz && bz <= lim
        && -lim <= cx && cx <= lim && -lim <= cy && cy <= lim && -lim <= cz && cz <= lim;
    let spans: bool = -span <= bx - ax && bx - ax <= span && -span <= by - ay && by - ay <= span
        && -span <= bz - az && bz - az <= span && -span <= cx - ax && cx - ax <= span && -span <= cy
        - ay && cy - ay <= span && -span <= cz - az && cz - az <= span;
    in_range && spans
}

/// Repackage the per-cell records of a completed readback into the flat
/// payload the CPU builder produces, after validating every record: a slot
/// claiming more than five triangles or holding out-of-range geometry turns
/// the whole readback into a typed error, never into partial geometry.
pub fn repackage_cell_results(cells: &Vec<CellResult>) -> (r: Result<MeshPayload, AdapterError>)
    requires
        cells@.len() <= MAX_RESULT_CELLS,
    ensures
        match r {
            Ok(m) => {
                &&& forall|i: int| 0 <= i < cells@.len() ==> spec_cell_ok(#[trigger] cells@[i])
                &&& mesh_matches(m, spec_results_triangles(cells@))
            },
            Err(e) => {
                &&& exists|i: int| 0 <= i < cells@.len() && !spec_cell_ok(#[trigger] cells@[i])
                &&& (e == AdapterError::MalformedCellCount || e
                    == AdapterError::GeometryOutOfRange)
                &&& e == AdapterError::MalformedCellCount ==> exists|i: int|
                    0 <= i < cells@.len() && !spec_cell_count_ok(#[trigger] cells@[i])
                &&& e == AdapterError::GeometryOutOfRange ==> exists|i: int|
                    0 <= i < cells@.len() && !spec_cell_geometry_ok(#[trigger] cells@[i])
            },
        },
{
    let count: usize = cells.len();
    let mut acc: Vec<Triangle> = Vec::new();
    let mut i: usize = 0;
    while i < count
        invariant
            i <= count,
            count == cells@.len(),
            count <= MAX_RESULT_CELLS,
            forall|q: int| 0 <= q < i ==> spec_cell_ok(#[trigger] cells@[q]),
            acc@ == spec_results_triangles(cells@.take(i as int)),
            forall|j: int| 0 <= j < acc@.len() ==> triangle_span_ok(#[trigger] acc@[j]),
            acc@.len() <= 5 * i,
        decreases count - i,
    {
        let c = cells[i];
        if c.triangle_count > 5 {
            return Err(AdapterError::MalformedCellCount);
        }
        let tc: usize = c.triangle_count as usize;
        let ghost cell_tris = spec_cell_triangles(cells@[i as int]);
        let mut j: usize = 0;
        while j < tc
            invariant
                j <= tc,
                tc == c.triangle_count,
                tc <= 5,
                c == cells@[i as int],
                0 <= i < cells@.len(),
                cell_tris == spec_cell_triangles(cells@[i as int]),
                acc@ == spec_results_triangles(cells@.take(i as int)) + cell_tris.take(j as int),
                forall|q: int| 0 <= q < acc@.len() ==> triangle_span_ok(#[trigger] acc@[q]),
                forall|q: int| 0 <= q < j ==> triangle_span_ok(#[trigger] cell_tris[q]),
                acc@.len() <= 5 * i + j,
            decreases tc - j,
        {
            let t = c.triangles[j];
            if !triangle_span_check(&t) {
                proof {
                    assert(spec_cell_triangles(cells@[i as int])[j as int] == t);
                    assert(!spec_cell_geometry_ok(cells@[i as int]));
                }
                return Err(AdapterError::GeometryOutOfRange);
            }
            acc.push(t);
            j = j + 1;
            proof {
                assert(cell_tris.take(j as int) =~= cell_tris.take(j - 1).push(t));
                assert(acc@ =~= spec_results_triangles(cells@.take(i as int)) + cell_tris.take(
                    j as int,
                ));
            }
        }
        proof {
            assert(cell_tris.len() == tc);
            assert(spec_cell_ok(cells@[i as int]));
        }
        i = i + 1;
        proof {
            assert(cells@.take(i as int).drop_last() =~= cells@.take(i - 1));
            assert(cells@.take(i as int).last() == cells@[i - 1]);
            assert(cell_tris.take(tc as int) =~= cell_tris);
            assert(acc@ =~= spec_results_triangles(cells@.take(i as int)));
        }
    }
    proof {
        assert(cells@.take(count as int) =~= cells@);
        assert(3 * acc@.len() <= 0x40000000);
    }
    Ok(assemble_mesh(&acc))
}

/// Turn the outcome of an asynchronous readback into a mesh or a typed
/// failure: a transfer the device never completed is surfaced as
/// [`AdapterError::TransferFailed`] rather than read.
pub fn finish_readback(outcome: Option<&Vec<CellResult>>) -> (r: Result<
    MeshPayload,
    AdapterError,
>)
    requires
        match outcome {
            Some(cells) => cells@.len() <= MAX_RESULT_CELLS,
            None => true,
        },
    ensures
        match outcome {
            None => r == Err::<MeshPayload, AdapterError>(AdapterError::TransferFailed),
            Some(cells) => match r {
                Ok(m) => {
                    &&& forall|i: int| 0 <= i < cells@.len() ==> spec_cell_ok(#[trigger] cells@[i])
                    &&& mesh_matches(m, spec_results_triangles(cells@))
                },
                Err(e) => {
                    &&& e != AdapterError::TransferFailed ==> exists|i: int|
                        0 <= i < cells@.len() && !spec_cell_ok(#[trigger] cells@[i])
                    &&& e != AdapterError::TransferFailed
                },
            },
        },
{
    match outcome {
        None => Err(AdapterError::TransferFailed),
        Some(cells) => repackage_cell_results(cells),
    }
}

} // verus!
