//! The marching-cubes polygonizer: from the 8 corner samples of one cell
//! and an iso-level threshold to the 0..=5 triangles that close the implicit
//! surface inside the cell.
//!
//! A corner is *inside* the surface when its density value is strictly below
//! the iso-level. The 8 inside flags form the configuration index, the
//! crossed edges form the edge mask, and the triangulation table row for the
//! configuration says which interpolated edge-crossing points to connect.

use crate::math::{
    div_trunc_i128, lemma_div_trunc_bounds, lemma_lerp_step_between, lies_between, pos_in_range,
    spec_div_trunc, val_in_range, Vec3Fx, POS_LIMIT, VAL_LIMIT,
};
use crate::tables::{
    edge_endpoints, lemma_row_tri_count_at_most_five, spec_row_tri_count, spec_table_row,
    triangle_table_row, valid_edge, EDGE_ENDPOINTS,
};
use vstd::prelude::*;

verus! {

/// One evaluated corner of a cell: a position and the density there.
#[derive(Clone, Copy, PartialEq, Eq, Structural, Debug)]
pub struct Sample {
    pub position: Vec3Fx,
    pub value: i64,
}

/// A triangle of the emitted surface, vertices by value.
#[derive(Clone, Copy, PartialEq, Eq, Structural, Debug)]
pub struct Triangle {
    pub a: Vec3Fx,
    pub b: Vec3Fx,
    pub c: Vec3Fx,
}

pub open spec fn sample_in_range(s: Sample) -> bool {
    pos_in_range(s.position) && val_in_range(s.value)
}

/// A full cell: exactly 8 samples, all within the library's ranges.
pub open spec fn cell_in_range(cell: Seq<Sample>) -> bool {
    &&& cell.len() == 8
    &&& forall|i: int| 0 <= i < 8 ==> sample_in_range(#[trigger] cell[i])
}

/// Corner `i` lies inside the surface: its value is below the iso-level.
pub open spec fn corner_inside(cell: Seq<Sample>, iso: i64, i: int) -> bool {
    cell[i].value < iso
}

pub open spec fn corner_bit(cell: Seq<Sample>, iso: i64, i: int) -> int {
    if corner_inside(cell, iso, i) {
        1
    } else {
        0
    }
}

/// The 8-bit corner-sign configuration: bit `i` is set when corner `i` is
/// inside the surface.
pub open spec fn spec_config(cell: Seq<Sample>, iso: i64) -> u8 {
    (corner_bit(cell, iso, 0) + 2 * corner_bit(cell, iso, 1) + 4 * corner_bit(cell, iso, 2) + 8
        * corner_bit(cell, iso, 3) + 16 * corner_bit(cell, iso, 4) + 32 * corner_bit(cell, iso, 5)
        + 64 * corner_bit(cell, iso, 6) + 128 * corner_bit(cell, iso, 7)) as u8
}

/// The corner index at one end of an edge.
pub open spec fn edge_corner(e: int, end: int) -> int {
    EDGE_ENDPOINTS@[e]@[end] as int
}

/// An edge is crossed by the surface when its two corners lie on different
/// sides of the iso-level.
pub open spec fn spec_edge_crossed(cell: Seq<Sample>, iso: i64, e: int) -> bool {
    corner_inside(cell, iso, edge_corner(e, 0)) != corner_inside(cell, iso, edge_corner(e, 1))
}

pub open spec fn crossed_bit(cell: Seq<Sample>, iso: i64, e: int) -> int {
    if spec_edge_crossed(cell, iso, e) {
        1
    } else {
        0
    }
}

/// The 12-bit edge mask: bit `e` is set when edge `e` is crossed.
pub open spec fn spec_edge_mask(cell: Seq<Sample>, iso: i64) -> u16 {
    (crossed_bit(cell, iso, 0) + 2 * crossed_bit(cell, iso, 1) + 4 * crossed_bit(cell, iso, 2) + 8
        * crossed_bit(cell, iso, 3) + 16 * crossed_bit(cell, iso, 4) + 32 * crossed_bit(
        cell,
        iso,
        5,
    ) + 64 * crossed_bit(cell, iso, 6) + 128 * crossed_bit(cell, iso, 7) + 256 * crossed_bit(
        cell,
        iso,
        8,
    ) + 512 * crossed_bit(cell, iso, 9) + 1024 * crossed_bit(cell, iso, 10) + 2048 * crossed_bit(
        cell,
        iso,
        11,
    )) as u16
}

/// Every edge joins two of the 8 corners.
pub proof fn lemma_edge_endpoints_in_range()
    ensures
        forall|e: int|
            0 <= e < 12 ==> 0 <= #[trigger] edge_corner(e, 0) < 8 && 0 <= edge_corner(e, 1) < 8,
{
    assert forall|e: int| 0 <= e < 12 implies 0 <= #[trigger] edge_corner(e, 0) < 8 && 0
        <= edge_corner(e, 1) < 8 by {
        if e == 0 {
        } else if e == 1 {
        } else if e == 2 {
        } else if e == 3 {
        } else if e == 4 {
        } else if e == 5 {
        } else if e == 6 {
        } else if e == 7 {
        } else if e == 8 {
        } else if e == 9 {
        } else if e == 10 {
        } else {
            assert(e == 11);
        }
    }
}

/// Clamp `v` into `[0, hi]`.
pub open spec fn spec_clamp(v: int, hi: int) -> int {
    if v < 0 {
        0
    } else if v > hi {
        hi
    } else {
        v
    }
}

/// Where the surface crosses the segment from `a.position` to `b.position`:
/// the linear interpolation at `t = (iso - a.value) / (b.value - a.value)`,
/// with `t` clamped into [0, 1], and the midpoint when the two values are
/// equal and no crossing parameter exists.
pub open spec fn spec_crossing(a: Sample, b: Sample, iso: i64) -> Vec3Fx {
    if a.value == b.value {
        Vec3Fx {
            x: (a.position.x + spec_div_trunc(b.position.x - a.position.x, 2)) as i64,
            y: (a.position.y + spec_div_trunc(b.position.y - a.position.y, 2)) as i64,
            z: (a.position.z + spec_div_trunc(b.position.z - a.position.z, 2)) as i64,
        }
    } else {
        let den = if b.value > a.value {
            b.value - a.value
        } else {
            a.value - b.value
        };
        let num0 = if b.value > a.value {
            iso - a.value
        } else {
            a.value - iso
        };
        let num = spec_clamp(num0, den);
        Vec3Fx {
            x: (a.position.x + spec_div_trunc((b.position.x - a.position.x) * num, den)) as i64,
            y: (a.position.y + spec_div_trunc((b.position.y - a.position.y) * num, den)) as i64,
            z: (a.position.z + spec_div_trunc((b.position.z - a.position.z) * num, den)) as i64,
        }
    }
}

/// The crossing point never leaves the segment between the two corner
/// positions: each of its components lies between the corners' components.
pub proof fn lemma_crossing_between(a: Sample, b: Sample, iso: i64)
    requires
        sample_in_range(a),
        sample_in_range(b),
        val_in_range(iso),
    ensures
        lies_between(a.position.x as int, b.position.x as int, spec_crossing(a, b, iso).x as int),
        lies_between(a.position.y as int, b.position.y as int, spec_crossing(a, b, iso).y as int),
        lies_between(a.position.z as int, b.position.z as int, spec_crossing(a, b, iso).z as int),
{
    if a.value == b.value {
        lemma_div_trunc_bounds(b.position.x - a.position.x, 2);
        lemma_div_trunc_bounds(b.position.y - a.position.y, 2);
        lemma_div_trunc_bounds(b.position.z - a.position.z, 2);
    } else {
        let den = if b.value > a.value {
            b.value - a.value
        } else {
            a.value - b.value
        };
        let num0 = if b.value > a.value {
            iso - a.value
        } else {
            a.value - iso
        };
        let num = spec_clamp(num0, den as int);
        lemma_lerp_step_between(b.position.x - a.position.x, num, den as int);
        lemma_lerp_step_between(b.position.y - a.position.y, num, den as int);
        lemma_lerp_step_between(b.position.z - a.position.z, num, den as int);
    }
}

/// One component of the interpolated crossing.
fn axis_cross(pa: i64, pb: i64, num: i64, den: i64) -> (r: i64)
    requires
        0 < den,
        0 <= num <= den,
        -POS_LIMIT <= pa <= POS_LIMIT,
        -POS_LIMIT <= pb <= POS_LIMIT,
        den <= 2 * VAL_LIMIT,
    ensures
        r == pa + spec_div_trunc((pb - pa) * num, den as int),
{
    let delta: i128 = (pb as i128) - (pa as i128);
    let wnum: i128 = num as i128;
    proof {
        assert(-0x400000000000000000000000 <= delta * wnum <= 0x400000000000000000000000)
            by (nonlinear_arith)
            requires
                -0x800000000000 <= delta <= 0x800000000000,
                0 <= wnum <= 0x800000000000,
        ;
        lemma_lerp_step_between(delta as int, num as int, den as int);
    }
    let w: i128 = delta * wnum;
    let q: i128 = div_trunc_i128(w, den as i128);
    pa + (q as i64)
}

/// One component of the midpoint fallback.
fn axis_mid(pa: i64, pb: i64) -> (r: i64)
    requires
        -POS_LIMIT <= pa <= POS_LIMIT,
        -POS_LIMIT <= pb <= POS_LIMIT,
    ensures
        r == pa + spec_div_trunc(pb - pa, 2),
{
    let delta: i128 = (pb as i128) - (pa as i128);
    proof {
        lemma_div_trunc_bounds(delta as int, 2);
    }
    let q: i128 = div_trunc_i128(delta, 2);
    pa + (q as i64)
}

/// Interpolate the point where the surface crosses the edge from `a` to
/// `b`. The implied interpolation parameter is clamped into [0, 1], so the
/// result always lies between the two corner positions.
pub fn interpolate_crossing(a: &Sample, b: &Sample, iso_level: i64) -> (p: Vec3Fx)
    requires
        sample_in_range(*a),
        sample_in_range(*b),
        val_in_range(iso_level),
    ensures
        p == spec_crossing(*a, *b, iso_level),
        lies_between(a.position.x as int, b.position.x as int, p.x as int),
        lies_between(a.position.y as int, b.position.y as int, p.y as int),
        lies_between(a.position.z as int, b.position.z as int, p.z as int),
{
    proof {
        lemma_crossing_between(*a, *b, iso_level);
    }
    if a.value == b.value {
        Vec3Fx::new(
            axis_mid(a.position.x, b.position.x),
            axis_mid(a.position.y, b.position.y),
            axis_mid(a.position.z, b.position.z),
        )
    } else {
        let den: i64 = if b.value > a.value {
            b.value - a.value
        } else {
            a.value - b.value
        };
        let num0: i64 = if b.value > a.value {
            iso_level - a.value
        } else {
            a.value - iso_level
        };
        let num: i64 = if num0 < 0 {
            0
        } else if num0 > den {
            den
        } else {
            num0
        };
        Vec3Fx::new(
            axis_cross(a.position.x, b.position.x, num, den),
            axis_cross(a.position.y, b.position.y, num, den),
            axis_cross(a.position.z, b.position.z, num, den),
        )
    }
}

/// The 12 candidate crossing points of a cell, one per edge.
pub open spec fn spec_cross_points(cell: Seq<Sample>, iso: i64) -> Seq<Vec3Fx> {
    Seq::new(12, |e: int| spec_crossing(cell[edge_corner(e, 0)], cell[edge_corner(e, 1)], iso))
}

/// `p` is the crossing point of one of the cell's edges.
pub open spec fn point_is_crossing(p: Vec3Fx, cell: Seq<Sample>, iso: i64) -> bool {
    exists|e: int|
        0 <= e < 12 && p == spec_crossing(
            cell[#[trigger] edge_corner(e, 0)],
            cell[edge_corner(e, 1)],
            iso,
        )
}

/// All three vertices of `t` are edge-crossing points of the cell.
pub open spec fn triangle_from_crossings(t: Triangle, cell: Seq<Sample>, iso: i64) -> bool {
    &&& point_is_crossing(t.a, cell, iso)
    &&& point_is_crossing(t.b, cell, iso)
    &&& point_is_crossing(t.c, cell, iso)
}

/// Walk a table row from position `k`, emitting one triangle per leading
/// well-formed triple of edge indices.
pub open spec fn spec_walk(row: Seq<u8>, pts: Seq<Vec3Fx>, k: int) -> Seq<Triangle>
    decreases 16 - k,
{
    if !(0 <= k <= 13) {
        Seq::empty()
    } else if valid_edge(row[k]) && valid_edge(row[k + 1]) && valid_edge(row[k + 2]) {
        seq![
            Triangle {
                a: pts[row[k] as int],
                b: pts[row[k + 1] as int],
                c: pts[row[k + 2] as int],
            },
        ] + spec_walk(row, pts, k + 3)
    } else {
        Seq::empty()
    }
}

/// The walk emits exactly as many triangles as the row holds triples.
pub proof fn lemma_walk_len(row: Seq<u8>, pts: Seq<Vec3Fx>, k: int)
    ensures
        spec_walk(row, pts, k).len() == spec_row_tri_count(row, k),
    decreases 16 - k,
{
    if 0 <= k <= 13 {
        lemma_walk_len(row, pts, k + 3);
    }
}

/// Every triangle the walk emits is built from edge-crossing points.
pub proof fn lemma_walk_triangles_are_crossings(cell: Seq<Sample>, iso: i64, row: Seq<u8>, k: int)
    ensures
        forall|j: int|
            0 <= j < spec_walk(row, spec_cross_points(cell, iso), k).len()
                ==> triangle_from_crossings(
                #[trigger] spec_walk(row, spec_cross_points(cell, iso), k)[j],
                cell,
                iso,
            ),
    decreases 16 - k,
{
    let pts = spec_cross_points(cell, iso);
    if 0 <= k <= 13 && valid_edge(row[k]) && valid_edge(row[k + 1]) && valid_edge(row[k + 2]) {
        lemma_walk_triangles_are_crossings(cell, iso, row, k + 3);
        let t = spec_walk(row, pts, k)[0];
        assert(t.a == pts[row[k] as int]);
        assert(point_is_crossing(t.a, cell, iso)) by {
            assert(0 <= row[k] < 12 && t.a == spec_crossing(
                cell[edge_corner(row[k] as int, 0)],
                cell[edge_corner(row[k] as int, 1)],
                iso,
            ));
        }
        assert(point_is_crossing(t.b, cell, iso)) by {
            assert(0 <= row[k + 1] < 12 && t.b == spec_crossing(
                cell[edge_corner(row[k + 1] as int, 0)],
                cell[edge_corner(row[k + 1] as int, 1)],
                iso,
            ));
        }
        assert(point_is_crossing(t.c, cell, iso)) by {
            assert(0 <= row[k + 2] < 12 && t.c == spec_crossing(
                cell[edge_corner(row[k + 2] as int, 0)],
                cell[edge_corner(row[k + 2] as int, 1)],
                iso,
            ));
        }
        assert forall|j: int| 0 <= j < spec_walk(row, pts, k).len() implies triangle_from_crossings(
            #[trigger] spec_walk(row, pts, k)[j],
            cell,
            iso,
        ) by {
            if j > 0 {
                assert(spec_walk(row, pts, k)[j] == spec_walk(row, pts, k + 3)[j - 1]);
            }
        }
    }
}

/// What the polygonizer returns: nothing when no edge is crossed, otherwise
/// the triangles named by the configuration's table row.
pub open spec fn spec_polygonise(cell: Seq<Sample>, iso: i64) -> Seq<Triangle> {
    if spec_edge_mask(cell, iso) == 0 {
        Seq::empty()
    } else {
        spec_walk(spec_table_row(spec_config(cell, iso)), spec_cross_points(cell, iso), 0)
    }
}

/// Step one of the polygonizer: the 8-bit corner-sign configuration of a
/// cell, bit `i` set when corner `i`'s value is below the iso-level.
pub fn config_index(cell: &[Sample; 8], iso_level: i64) -> (c: u8)
    ensures
        c == spec_config(cell@, iso_level),
{
    let inside0: bool = cell[0].value < iso_level;
    let inside1: bool = cell[1].value < iso_level;
    let inside2: bool = cell[2].value < iso_level;
    let inside3: bool = cell[3].value < iso_level;
    let inside4: bool = cell[4].value < iso_level;
    let inside5: bool = cell[5].value < iso_level;
    let inside6: bool = cell[6].value < iso_level;
    let inside7: bool = cell[7].value < iso_level;
    let ghost cw = cell@;
    let mut config: u8 = 0;
    if inside0 {
        config = config + 1;
    }
    assert(config == corner_bit(cw, iso_level, 0));
    if inside1 {
        config = config + 2;
    }
    assert(config == corner_bit(cw, iso_level, 0) + 2 * corner_bit(cw, iso_level, 1));
    if inside2 {
        config = config + 4;
    }
    if inside3 {
        config = config + 8;
    }
    assert(config == corner_bit(cw, iso_level, 0) + 2 * corner_bit(cw, iso_level, 1) + 4
        * corner_bit(cw, iso_level, 2) + 8 * corner_bit(cw, iso_level, 3));
    if inside4 {
        config = config + 16;
    }
    if inside5 {
        config = config + 32;
    }
    assert(config == corner_bit(cw, iso_level, 0) + 2 * corner_bit(cw, iso_level, 1) + 4
        * corner_bit(cw, iso_level, 2) + 8 * corner_bit(cw, iso_level, 3) + 16 * corner_bit(
        cw,
        iso_level,
        4,
    ) + 32 * corner_bit(cw, iso_level, 5));
    if inside6 {
        config = config + 64;
    }
    if inside7 {
        config = config + 128;
    }
    assert(config == spec_config(cell@, iso_level));
    config
}

/// Step two of the polygonizer: the mask of crossed edges, bit `e` set
/// when the corners of edge `e` lie on different sides of the iso-level.
pub fn edge_mask(cell: &[Sample; 8], iso_level: i64) -> (m: u16)
    ensures
        m == spec_edge_mask(cell@, iso_level),
{
    let inside0: bool = cell[0].value < iso_level;
    let inside1: bool = cell[1].value < iso_level;
    let inside2: bool = cell[2].value < iso_level;
    let inside3: bool = cell[3].value < iso_level;
    let inside4: bool = cell[4].value < iso_level;
    let inside5: bool = cell[5].value < iso_level;
    let inside6: bool = cell[6].value < iso_level;
    let inside7: bool = cell[7].value < iso_level;

    let ghost cw = cell@;
    let mut mask: u16 = 0;
    if inside0 != inside1 {
        mask = mask + 1;
    }
    assert(mask == crossed_bit(cw, iso_level, 0));
    if inside1 != inside2 {
        mask = mask + 2;
    }
    assert(mask == crossed_bit(cw, iso_level, 0) + 2 * crossed_bit(cw, iso_level, 1));
    if inside2 != inside3 {
        mask = mask + 4;
    }
    assert(mask == crossed_bit(cw, iso_level, 0) + 2 * crossed_bit(cw, iso_level, 1) + 4
        * crossed_bit(cw, iso_level, 2));
    if inside3 != inside0 {
        mask = mask + 8;
    }
    assert(mask == crossed_bit(cw, iso_level, 0) + 2 * crossed_bit(cw, iso_level, 1) + 4
        * crossed_bit(cw, iso_level, 2) + 8 * crossed_bit(cw, iso_level, 3));
    if inside4 != inside5 {
        mask = mask + 16;
    }
    assert(mask == crossed_bit(cw, iso_level, 0) + 2 * crossed_bit(cw, iso_level, 1) + 4
        * crossed_bit(cw, iso_level, 2) + 8 * crossed_bit(cw, iso_level, 3) + 16 * crossed_bit(
        cw,
        iso_level,
        4,
    ));
    if inside5 != inside6 {
        mask = mask + 32;
    }
    assert(mask == crossed_bit(cw, iso_level, 0) + 2 * crossed_bit(cw, iso_level, 1) + 4
        * crossed_bit(cw, iso_level, 2) + 8 * crossed_bit(cw, iso_level, 3) + 16 * crossed_bit(
        cw,
        iso_level,
        4,
    ) + 32 * crossed_bit(cw, iso_level, 5));
    if inside6 != inside7 {
        mask = mask + 64;
    }
    if inside7 != inside4 {
        mask = mask + 128;
    }
    assert(mask == crossed_bit(cw, iso_level, 0) + 2 * crossed_bit(cw, iso_level, 1) + 4
        * crossed_bit(cw, iso_level, 2) + 8 * crossed_bit(cw, iso_level, 3) + 16 * crossed_bit(
        cw,
        iso_level,
        4,
    ) + 32 * crossed_bit(cw, iso_level, 5) + 64 * crossed_bit(cw, iso_level, 6) + 128
        * crossed_bit(cw, iso_level, 7));
    if inside0 != inside4 {
        mask = mask + 256;
    }
    if inside1 != inside5 {
        mask = mask + 512;
    }
    assert(mask == crossed_bit(cw, iso_level, 0) + 2 * crossed_bit(cw, iso_level, 1) + 4
        * crossed_bit(cw, iso_level, 2) + 8 * crossed_bit(cw, iso_level, 3) + 16 * crossed_bit(
        cw,
        iso_level,
        4,
    ) + 32 * crossed_bit(cw, iso_level, 5) + 64 * crossed_bit(cw, iso_level, 6) + 128
        * crossed_bit(cw, iso_level, 7) + 256 * crossed_bit(cw, iso_level, 8) + 512 * crossed_bit(
        cw,
        iso_level,
        9,
    ));
    if inside2 != inside6 {
        mask = mask + 1024;
    }
    assert(mask == crossed_bit(cw, iso_level, 0) + 2 * crossed_bit(cw, iso_level, 1) + 4
        * crossed_bit(cw, iso_level, 2) + 8 * crossed_bit(cw, iso_level, 3) + 16 * crossed_bit(
        cw,
        iso_level,
        4,
    ) + 32 * crossed_bit(cw, iso_level, 5) + 64 * crossed_bit(cw, iso_level, 6) + 128
        * crossed_bit(cw, iso_level, 7) + 256 * crossed_bit(cw, iso_level, 8) + 512 * crossed_bit(
        cw,
        iso_level,
        9,
    ) + 1024 * crossed_bit(cw, iso_level, 10));
    if inside3 != inside7 {
        mask = mask + 2048;
    }
    assert(mask == spec_edge_mask(cell@, iso_level));
    mask
}

/// Convert the 8 corner samples of a cell into the triangles of the implicit
/// surface inside it: between 0 and 5, one per triple of the configuration's
/// triangulation-table row, each vertex an interpolated edge crossing.
#[verifier::rlimit(100)]
pub fn polygonise(cell: &[Sample; 8], iso_level: i64) -> (ts: Vec<Triangle>)
    requires
        cell_in_range(cell@),
        val_in_range(iso_level),
    ensures
        ts@ == spec_polygonise(cell@, iso_level),
        ts@.len() <= 5,
        spec_edge_mask(cell@, iso_level) != 0 ==> ts@.len() == spec_row_tri_count(
            spec_table_row(spec_config(cell@, iso_level)),
            0,
        ),
        spec_edge_mask(cell@, iso_level) == 0 ==> ts@.len() == 0,
        forall|j: int|
            0 <= j < ts@.len() ==> triangle_from_crossings(#[trigger] ts@[j], cell@, iso_level),
{
    let config: u8 = config_index(cell, iso_level);
    let mask: u16 = edge_mask(cell, iso_level);

    let mut ts: Vec<Triangle> = Vec::new();
    if mask == 0 {
        return ts;
    }

    proof {
        lemma_edge_endpoints_in_range();
    }
    let ghost pts_spec = spec_cross_points(cell@, iso_level);
    let mut pts: Vec<Vec3Fx> = Vec::new();
    let mut e: usize = 0;
    while e < 12
        invariant
            e <= 12,
            pts@.len() == e,
            cell_in_range(cell@),
            val_in_range(iso_level),
            pts_spec == spec_cross_points(cell@, iso_level),
            forall|j: int| 0 <= j < e ==> pts@[j] == pts_spec[j],
            forall|j: int|
                0 <= j < 12 ==> 0 <= #[trigger] edge_corner(j, 0) < 8 && 0 <= edge_corner(j, 1)
                    < 8,
        decreases 12 - e,
    {
        let pair = edge_endpoints(e);
        let p = interpolate_crossing(&cell[pair[0] as usize], &cell[pair[1] as usize], iso_level);
        pts.push(p);
        e = e + 1;
    }
    assert(pts@ =~= pts_spec);

    let row = triangle_table_row(config);
    let ghost walk_all = spec_walk(row@, pts@, 0);
    proof {
        lemma_walk_len(row@, pts@, 0);
        lemma_row_tri_count_at_most_five(row@, 0);
        lemma_walk_triangles_are_crossings(cell@, iso_level, row@, 0);
    }
    let mut k: usize = 0;
    while k <= 13
        invariant_except_break
            k % 3 == 0,
            k <= 15,
            pts@.len() == 12,
            ts@.len() == k / 3,
            walk_all == spec_walk(row@, pts@, 0),
            ts@ + spec_walk(row@, pts@, k as int) == walk_all,
        ensures
            ts@ == walk_all,
        decreases 16 - k,
    {
        let e0 = row[k];
        let e1 = row[k + 1];
        let e2 = row[k + 2];
        if e0 < 12 && e1 < 12 && e2 < 12 {
            let t = Triangle {
                a: pts[e0 as usize],
                b: pts[e1 as usize],
                c: pts[e2 as usize],
            };
            assert(spec_walk(row@, pts@, k as int)[0] == t);
            assert(spec_walk(row@, pts@, k as int).drop_first() == spec_walk(
                row@,
                pts@,
                k as int + 3,
            ));
            ts.push(t);
            k = k + 3;
            assert(ts@ + spec_walk(row@, pts@, k as int) =~= walk_all);
        } else {
            assert(spec_walk(row@, pts@, k as int) =~= Seq::<Triangle>::empty());
            assert(ts@ + spec_walk(row@, pts@, k as int) =~= ts@);
            break ;
        }
    }
    assert(ts@ == spec_polygonise(cell@, iso_level));
    ts
}

/// A cell that lies entirely on one side of the surface emits no geometry:
/// the all-outside and all-inside configurations yield zero triangles.
pub proof fn lemma_uniform_cell_yields_nothing(cell: Seq<Sample>, iso: i64)
    requires
        cell.len() == 8,
        spec_config(cell, iso) == 0 || spec_config(cell, iso) == 255,
    ensures
        spec_polygonise(cell, iso) == Seq::<Triangle>::empty(),
{
    lemma_edge_endpoints_in_range();
    let s = corner_bit(cell, iso, 0) + 2 * corner_bit(cell, iso, 1) + 4 * corner_bit(cell, iso, 2)
        + 8 * corner_bit(cell, iso, 3) + 16 * corner_bit(cell, iso, 4) + 32 * corner_bit(
        cell,
        iso,
        5,
    ) + 64 * corner_bit(cell, iso, 6) + 128 * corner_bit(cell, iso, 7);
    assert(0 <= s <= 255);
    assert(spec_config(cell, iso) == s as u8);
    assert(s == 0 || s == 255);
    assert forall|i: int| 0 <= i < 8 implies corner_inside(cell, iso, i) == (s == 255) by {
        if i == 0 {
        } else if i == 1 {
        } else if i == 2 {
        } else if i == 3 {
        } else if i == 4 {
        } else if i == 5 {
        } else if i == 6 {
        } else {
            assert(i == 7);
        }
    }
    assert forall|e: int| 0 <= e < 12 implies !spec_edge_crossed(cell, iso, e) by {
        assert(0 <= edge_corner(e, 0) < 8 && 0 <= edge_corner(e, 1) < 8);
    }
    assert(spec_edge_mask(cell, iso) == 0);
}

/// Flipping which side of the iso-level every corner lies on gives the
/// complementary configuration and leaves the edge mask unchanged: the same
/// edges are crossed from either side of the surface.
pub proof fn lemma_complementary_cells_same_mask(c1: Seq<Sample>, iso1: i64, c2: Seq<Sample>, iso2: i64)
    requires
        c1.len() == 8,
        c2.len() == 8,
        forall|i: int|
            0 <= i < 8 ==> (corner_inside(c1, iso1, i) <==> !corner_inside(c2, iso2, i)),
    ensures
        spec_edge_mask(c1, iso1) == spec_edge_mask(c2, iso2),
        spec_config(c1, iso1) + spec_config(c2, iso2) == 255,
{
    lemma_edge_endpoints_in_range();
    assert forall|e: int| 0 <= e < 12 implies spec_edge_crossed(c1, iso1, e) == spec_edge_crossed(
        c2,
        iso2,
        e,
    ) by {
        let i0 = edge_corner(e, 0);
        let i1 = edge_corner(e, 1);
        assert(0 <= i0 < 8 && 0 <= i1 < 8);
        assert(corner_inside(c1, iso1, i0) == !corner_inside(c2, iso2, i0));
        assert(corner_inside(c1, iso1, i1) == !corner_inside(c2, iso2, i1));
    }
    assert(spec_edge_crossed(c1, iso1, 0) == spec_edge_crossed(c2, iso2, 0));
    assert(spec_edge_crossed(c1, iso1, 1) == spec_edge_crossed(c2, iso2, 1));
    assert(spec_edge_crossed(c1, iso1, 2) == spec_edge_crossed(c2, iso2, 2));
    assert(spec_edge_crossed(c1, iso1, 3) == spec_edge_crossed(c2, iso2, 3));
    assert(spec_edge_crossed(c1, iso1, 4) == spec_edge_crossed(c2, iso2, 4));
    assert(spec_edge_crossed(c1, iso1, 5) == spec_edge_crossed(c2, iso2, 5));
    assert(spec_edge_crossed(c1, iso1, 6) == spec_edge_crossed(c2, iso2, 6));
    assert(spec_edge_crossed(c1, iso1, 7) == spec_edge_crossed(c2, iso2, 7));
    assert(spec_edge_crossed(c1, iso1, 8) == spec_edge_crossed(c2, iso2, 8));
    assert(spec_edge_crossed(c1, iso1, 9) == spec_edge_crossed(c2, iso2, 9));
    assert(spec_edge_crossed(c1, iso1, 10) == spec_edge_crossed(c2, iso2, 10));
    assert(spec_edge_crossed(c1, iso1, 11) == spec_edge_crossed(c2, iso2, 11));
    assert(corner_inside(c1, iso1, 0) == !corner_inside(c2, iso2, 0));
    assert(corner_inside(c1, iso1, 1) == !corner_inside(c2, iso2, 1));
    assert(corner_inside(c1, iso1, 2) == !corner_inside(c2, iso2, 2));
    assert(corner_inside(c1, iso1, 3) == !corner_inside(c2, iso2, 3));
    assert(corner_inside(c1, iso1, 4) == !corner_inside(c2, iso2, 4));
    assert(corner_inside(c1, iso1, 5) == !corner_inside(c2, iso2, 5));
    assert(corner_inside(c1, iso1, 6) == !corner_inside(c2, iso2, 6));
    assert(corner_inside(c1, iso1, 7) == !corner_inside(c2, iso2, 7));
}

/// A cell with exactly one corner inside the surface emits exactly one
/// triangle.
pub proof fn lemma_single_inside_corner_one_triangle(cell: Seq<Sample>, iso: i64)
    requires
        cell.len() == 8,
        spec_config(cell, iso) == 1 || spec_config(cell, iso) == 2 || spec_config(cell, iso) == 4
            || spec_config(cell, iso) == 8 || spec_config(cell, iso) == 16 || spec_config(
            cell,
            iso,
        ) == 32 || spec_config(cell, iso) == 64 || spec_config(cell, iso) == 128,
    ensures
        spec_polygonise(cell, iso).len() == 1,
{
    lemma_edge_endpoints_in_range();
    crate::tables::lemma_single_bit_config_rows();
    let s = corner_bit(cell, iso, 0) + 2 * corner_bit(cell, iso, 1) + 4 * corner_bit(cell, iso, 2)
        + 8 * corner_bit(cell, iso, 3) + 16 * corner_bit(cell, iso, 4) + 32 * corner_bit(
        cell,
        iso,
        5,
    ) + 64 * corner_bit(cell, iso, 6) + 128 * corner_bit(cell, iso, 7);
    assert(0 <= s <= 255);
    assert(spec_config(cell, iso) == s as u8);
    let cfg = spec_config(cell, iso);
    if cfg == 1 {
        assert(corner_inside(cell, iso, 0) && !corner_inside(cell, iso, 1));
        assert(spec_edge_crossed(cell, iso, 0));
    } else if cfg == 2 {
        assert(!corner_inside(cell, iso, 0) && corner_inside(cell, iso, 1));
        assert(spec_edge_crossed(cell, iso, 0));
    } else if cfg == 4 {
        assert(corner_inside(cell, iso, 2) && !corner_inside(cell, iso, 1));
        assert(spec_edge_crossed(cell, iso, 1));
    } else if cfg == 8 {
        assert(corner_inside(cell, iso, 3) && !corner_inside(cell, iso, 2));
        assert(spec_edge_crossed(cell, iso, 2));
    } else if cfg == 16 {
        assert(corner_inside(cell, iso, 4) && !corner_inside(cell, iso, 5));
        assert(spec_edge_crossed(cell, iso, 4));
    } else if cfg == 32 {
        assert(corner_inside(cell, iso, 5) && !corner_inside(cell, iso, 4));
        assert(spec_edge_crossed(cell, iso, 4));
    } else if cfg == 64 {
        assert(corner_inside(cell, iso, 6) && !corner_inside(cell, iso, 5));
        assert(spec_edge_crossed(cell, iso, 5));
    } else {
        assert(cfg == 128);
        assert(corner_inside(cell, iso, 7) && !corner_inside(cell, iso, 6));
        assert(spec_edge_crossed(cell, iso, 6));
    }
    let m = crossed_bit(cell, iso, 0) + 2 * crossed_bit(cell, iso, 1) + 4 * crossed_bit(
        cell,
        iso,
        2,
    ) + 8 * crossed_bit(cell, iso, 3) + 16 * crossed_bit(cell, iso, 4) + 32 * crossed_bit(
        cell,
        iso,
        5,
    ) + 64 * crossed_bit(cell, iso, 6) + 128 * crossed_bit(cell, iso, 7) + 256 * crossed_bit(
        cell,
        iso,
        8,
    ) + 512 * crossed_bit(cell, iso, 9) + 1024 * crossed_bit(cell, iso, 10) + 2048 * crossed_bit(
        cell,
        iso,
        11,
    );
    assert(1 <= m <= 4095);
    assert(spec_edge_mask(cell, iso) == m as u16);
    assert(spec_edge_mask(cell, iso) != 0);
    lemma_walk_len(spec_table_row(cfg), spec_cross_points(cell, iso), 0);
}

/// For every one of the 256 configurations, the polygonizer emits exactly
/// as many triangles as the configuration's triangulation-table row holds
/// non-sentinel triples: every counted triple is free of sentinels and the
/// entry right after them is the sentinel. When no edge is crossed the
/// cell's corners all lie on one side of the surface, the configuration is
/// one of the two uniform ones, and their rows are empty, so the count is
/// zero there as well.
pub proof fn lemma_triangle_count_matches_table(cell: Seq<Sample>, iso: i64)
    requires
        cell.len() == 8,
    ensures
        spec_polygonise(cell, iso).len() == spec_row_tri_count(
            spec_table_row(spec_config(cell, iso)),
            0,
        ),
        0 <= spec_polygonise(cell, iso).len() <= 5,
        forall|t: int|
            0 <= t < spec_polygonise(cell, iso).len() ==> #[trigger] spec_table_row(
                spec_config(cell, iso),
            )[3 * t] != crate::tables::TRI_SENTINEL,
        spec_polygonise(cell, iso).len() < 5 ==> spec_table_row(spec_config(cell, iso))[3 * (
        spec_polygonise(cell, iso).len() as int)] == crate::tables::TRI_SENTINEL,
{
    crate::tables::lemma_all_rows_wf();
    crate::tables::lemma_row_tri_count_non_sentinel(spec_table_row(spec_config(cell, iso)), 0);
    let cfg = spec_config(cell, iso);
    if spec_edge_mask(cell, iso) == 0 {
        let m = crossed_bit(cell, iso, 0) + 2 * crossed_bit(cell, iso, 1) + 4 * crossed_bit(
            cell,
            iso,
            2,
        ) + 8 * crossed_bit(cell, iso, 3) + 16 * crossed_bit(cell, iso, 4) + 32 * crossed_bit(
            cell,
            iso,
            5,
        ) + 64 * crossed_bit(cell, iso, 6) + 128 * crossed_bit(cell, iso, 7) + 256 * crossed_bit(
            cell,
            iso,
            8,
        ) + 512 * crossed_bit(cell, iso, 9) + 1024 * crossed_bit(cell, iso, 10) + 2048
            * crossed_bit(cell, iso, 11);
        assert(0 <= m <= 4095);
        assert(spec_edge_mask(cell, iso) == m as u16);
        assert(m == 0);
        assert(!spec_edge_crossed(cell, iso, 0) && !spec_edge_crossed(cell, iso, 1)
            && !spec_edge_crossed(cell, iso, 2) && !spec_edge_crossed(cell, iso, 4)
            && !spec_edge_crossed(cell, iso, 5) && !spec_edge_crossed(cell, iso, 6)
            && !spec_edge_crossed(cell, iso, 8));
        assert(corner_inside(cell, iso, 0) == corner_inside(cell, iso, 1));
        assert(corner_inside(cell, iso, 1) == corner_inside(cell, iso, 2));
        assert(corner_inside(cell, iso, 2) == corner_inside(cell, iso, 3));
        assert(corner_inside(cell, iso, 0) == corner_inside(cell, iso, 4));
        assert(corner_inside(cell, iso, 4) == corner_inside(cell, iso, 5));
        assert(corner_inside(cell, iso, 5) == corner_inside(cell, iso, 6));
        assert(corner_inside(cell, iso, 6) == corner_inside(cell, iso, 7));
        if corner_inside(cell, iso, 0) {
            assert(cfg == 255);
        } else {
            assert(cfg == 0);
        }
        crate::tables::lemma_uniform_config_rows_empty();
    } else {
        lemma_walk_len(spec_table_row(cfg), spec_cross_points(cell, iso), 0);
    }
}

} // verus!
