//! The chunk mesh builder: run the polygonizer over every cell of a chunk's
//! density grid and assemble the triangles into a flat, non-indexed render
//! payload — 3 vertices per triangle, a trivial ascending index array,
//! placeholder texture coordinates, and the face normal replicated across
//! each triangle's corners (flat shading).

use crate::math::{
    isqrt_u128, is_sqrt, div_trunc_i128, lemma_div_trunc_bounds, lemma_lerp_step_between,
    lies_between, pos_in_range, spec_div_trunc, spec_isqrt, val_in_range, Vec3Fx, FP_ONE,
    POS_LIMIT,
};
use crate::polygonize::{
    cell_in_range, edge_corner, lemma_crossing_between, lemma_edge_endpoints_in_range,
    point_is_crossing, polygonise, sample_in_range, spec_polygonise, triangle_from_crossings,
    Sample, Triangle,
};
use crate::tables::CORNER_OFFSETS;
use vstd::prelude::*;

verus! {

/// Placeholder texture coordinates: the builder emits all zeroes.
#[derive(Clone, Copy, PartialEq, Eq, Structural, Debug)]
pub struct Vec2Fx {
    pub u: i64,
    pub v: i64,
}

/// A renderable triangle-soup mesh: the flat arrays a host renderer takes.
#[derive(Clone, Debug)]
pub struct MeshPayload {
    pub vertices: Vec<Vec3Fx>,
    pub indices: Vec<u32>,
    pub uvs: Vec<Vec2Fx>,
    pub normals: Vec<Vec3Fx>,
}

/// Largest per-axis distance between two vertices of one emitted triangle.
pub const SPAN_LIMIT: i64 = 0x200000;

/// The triangle's vertices are in range and close enough together that its
/// normal can be computed without overflow.
pub open spec fn triangle_span_ok(t: Triangle) -> bool {
    &&& pos_in_range(t.a)
    &&& pos_in_range(t.b)
    &&& pos_in_range(t.c)
    &&& -SPAN_LIMIT <= t.b.x - t.a.x <= SPAN_LIMIT
    &&& -SPAN_LIMIT <= t.b.y - t.a.y <= SPAN_LIMIT
    &&& -SPAN_LIMIT <= t.b.z - t.a.z <= SPAN_LIMIT
    &&& -SPAN_LIMIT <= t.c.x - t.a.x <= SPAN_LIMIT
    &&& -SPAN_LIMIT <= t.c.y - t.a.y <= SPAN_LIMIT
    &&& -SPAN_LIMIT <= t.c.z - t.a.z <= SPAN_LIMIT
}

/// The components of `cross(b - a, c - a)`.
pub open spec fn spec_cross_x(t: Triangle) -> int {
    (t.b.y - t.a.y) * (t.c.z - t.a.z) - (t.b.z - t.a.z) * (t.c.y - t.a.y)
}

pub open spec fn spec_cross_y(t: Triangle) -> int {
    (t.b.z - t.a.z) * (t.c.x - t.a.x) - (t.b.x - t.a.x) * (t.c.z - t.a.z)
}

pub open spec fn spec_cross_z(t: Triangle) -> int {
    (t.b.x - t.a.x) * (t.c.y - t.a.y) - (t.b.y - t.a.y) * (t.c.x - t.a.x)
}

/// The length of the cross product, rounded down to an integer.
pub open spec fn spec_normal_len(t: Triangle) -> int {
    spec_isqrt(
        (spec_cross_x(t) * spec_cross_x(t) + spec_cross_y(t) * spec_cross_y(t) + spec_cross_z(t)
            * spec_cross_z(t)) as nat,
    ) as int
}

/// The face normal of a triangle: the cross product of its two edge vectors
/// scaled to unit length in fixed point. A degenerate triangle, whose cross
/// product is the zero vector, gets the zero normal.
pub open spec fn spec_face_normal(t: Triangle) -> Vec3Fx {
    let l = spec_normal_len(t);
    if l == 0 {
        Vec3Fx { x: 0i64, y: 0i64, z: 0i64 }
    } else {
        Vec3Fx {
            x: spec_div_trunc(spec_cross_x(t) * FP_ONE, l) as i64,
            y: spec_div_trunc(spec_cross_y(t) * FP_ONE, l) as i64,
            z: spec_div_trunc(spec_cross_z(t) * FP_ONE, l) as i64,
        }
    }
}

/// A number whose square is at most `s` is bounded by the integer square
/// root of `s`.
proof fn lemma_component_within_len(c: int, s: int, l: int)
    requires
        0 <= s,
        c * c <= s,
        is_sqrt(s, l),
    ensures
        -l <= c <= l,
{
    if c > l {
        assert((l + 1) * (l + 1) <= c * c) by (nonlinear_arith)
            requires
                c >= l + 1 && l >= 0,
        ;
    }
    if c < -l {
        assert((l + 1) * (l + 1) <= c * c) by (nonlinear_arith)
            requires
                -c >= l + 1 && l >= 0,
        ;
    }
}

/// A ratio `c / l` in [-1, 1], scaled by `f`, stays within `[-f, f]`.
proof fn lemma_scaled_ratio_bounded(c: int, l: int, f: int)
    requires
        l > 0,
        -l <= c <= l,
        f > 0,
    ensures
        -f <= spec_div_trunc(c * f, l) <= f,
{
    if c >= 0 {
        lemma_lerp_step_between(f, c, l);
        assert(f * c == c * f) by (nonlinear_arith);
    } else {
        lemma_lerp_step_between(f, -c, l);
        assert(f * (-c) == -(c * f)) by (nonlinear_arith);
    }
}

/// One scaled component of the normal.
fn normal_component(c: i128, l: u128) -> (r: i64)
    requires
        0 < l <= 0x100000000000000,
        -0x100000000000000 <= c <= 0x100000000000000,
        -(l as int) <= c <= l as int,
    ensures
        r == spec_div_trunc(c * FP_ONE, l as int),
        -FP_ONE <= r <= FP_ONE,
{
    proof {
        lemma_scaled_ratio_bounded(c as int, l as int, FP_ONE as int);
    }
    let q: i128 = div_trunc_i128(c * 1024, l as i128);
    q as i64
}

/// The face normal, computed exactly as [`spec_face_normal`] says: cross
/// product, integer square root of its squared length, and a truncating
/// scaled division per component. Every component stays within one
/// fixed-point unit.
pub fn face_normal(t: &Triangle) -> (n: Vec3Fx)
    requires
        triangle_span_ok(*t),
    ensures
        n == spec_face_normal(*t),
        -FP_ONE <= n.x <= FP_ONE,
        -FP_ONE <= n.y <= FP_ONE,
        -FP_ONE <= n.z <= FP_ONE,
{
    let ux: i128 = (t.b.x - t.a.x) as i128;
    let uy: i128 = (t.b.y - t.a.y) as i128;
    let uz: i128 = (t.b.z - t.a.z) as i128;
    let vx: i128 = (t.c.x - t.a.x) as i128;
    let vy: i128 = (t.c.y - t.a.y) as i128;
    let vz: i128 = (t.c.z - t.a.z) as i128;
    proof {
        assert forall|p: i128, q: i128|
            -0x200000 <= p <= 0x200000 && -0x200000 <= q <= 0x200000
                implies -0x40000000000 <= #[trigger] (p * q) <= 0x40000000000 by {
            assert(-0x40000000000 <= p * q <= 0x40000000000) by (nonlinear_arith)
                requires
                    -0x200000 <= p <= 0x200000,
                    -0x200000 <= q <= 0x200000,
            ;
        }
    }
    let cx: i128 = uy * vz - uz * vy;
    let cy: i128 = uz * vx - ux * vz;
    let cz: i128 = ux * vy - uy * vx;
    proof {
        assert forall|p: i128|
            -0x80000000000 <= p <= 0x80000000000
                implies 0 <= #[trigger] (p * p) <= 0x4000000000000000000000 by {
            assert(0 <= p * p <= 0x4000000000000000000000) by (nonlinear_arith)
                requires
                    -0x80000000000 <= p <= 0x80000000000,
            ;
        }
    }
    let s: i128 = cx * cx + cy * cy + cz * cz;
    if s == 0 {
        assert(spec_normal_len(*t) == 0) by {
            assert(spec_cross_x(*t) * spec_cross_x(*t) + spec_cross_y(*t) * spec_cross_y(*t)
                + spec_cross_z(*t) * spec_cross_z(*t) == 0);
        }
        Vec3Fx::zero()
    } else {
        let l: u128 = isqrt_u128(s as u128);
        proof {
            assert(l > 0) by {
                if l == 0 {
                    assert((l + 1) * (l + 1) == 1) by (nonlinear_arith)
                        requires
                            l == 0,
                    ;
                }
            }
            assert(cx * cx <= s as int) by {
                assert(cy * cy >= 0 && cz * cz >= 0) by (nonlinear_arith);
            }
            assert(cy * cy <= s as int) by {
                assert(cx * cx >= 0 && cz * cz >= 0) by (nonlinear_arith);
            }
            assert(cz * cz <= s as int) by {
                assert(cx * cx >= 0 && cy * cy >= 0) by (nonlinear_arith);
            }
            lemma_component_within_len(cx as int, s as int, l as int);
            lemma_component_within_len(cy as int, s as int, l as int);
            lemma_component_within_len(cz as int, s as int, l as int);
            assert(s <= 0xC000000000000000000000);
            if l > 0x100000000000000 {
                assert(l * l > 0xC000000000000000000000) by (nonlinear_arith)
                    requires
                        l > 0x100000000000000,
                ;
            }
        }
        Vec3Fx::new(normal_component(cx, l), normal_component(cy, l), normal_component(cz, l))
    }
}

/// The flat vertex array of a triangle list: 3 vertices per triangle, in
/// emission order, shared by the CPU builder and the compute-readback path.
pub open spec fn spec_vertices(ts: Seq<Triangle>) -> Seq<Vec3Fx> {
    Seq::new(
        (3 * ts.len()) as nat,
        |i: int|
            if i % 3 == 0 {
                ts[i / 3].a
            } else if i % 3 == 1 {
                ts[i / 3].b
            } else {
                ts[i / 3].c
            },
    )
}

/// The trivial ascending index array of a non-indexed mesh.
pub open spec fn spec_indices(n: int) -> Seq<u32> {
    Seq::new(n as nat, |i: int| i as u32)
}

/// Placeholder texture coordinates, all zero.
pub open spec fn spec_uvs(n: int) -> Seq<Vec2Fx> {
    Seq::new(n as nat, |i: int| Vec2Fx { u: 0i64, v: 0i64 })
}

/// The face normal of each triangle, replicated across its 3 vertices.
pub open spec fn spec_normals(ts: Seq<Triangle>) -> Seq<Vec3Fx> {
    Seq::new((3 * ts.len()) as nat, |i: int| spec_face_normal(ts[i / 3]))
}

/// `m` is exactly the flat payload of the triangle list `ts`.
pub open spec fn mesh_matches(m: MeshPayload, ts: Seq<Triangle>) -> bool {
    &&& m.vertices@ == spec_vertices(ts)
    &&& m.indices@ == spec_indices(3 * ts.len() as int)
    &&& m.uvs@ == spec_uvs(3 * ts.len() as int)
    &&& m.normals@ == spec_normals(ts)
}

/// Assemble a triangle list into the flat payload: vertices, ascending
/// indices, zero texture coordinates, and per-face normals.
pub fn assemble_mesh(triangles: &Vec<Triangle>) -> (m: MeshPayload)
    requires
        forall|j: int| 0 <= j < triangles@.len() ==> triangle_span_ok(#[trigger] triangles@[j]),
        3 * triangles@.len() <= 0x40000000,
    ensures
        mesh_matches(m, triangles@),
{
    let ghost ts = triangles@;
    let count: usize = triangles.len();

    let mut vertices: Vec<Vec3Fx> = Vec::new();
    let mut j: usize = 0;
    while j < count
        invariant
            j <= count,
            count == ts.len(),
            ts == triangles@,
            3 * ts.len() <= 0x40000000,
            vertices@.len() == 3 * j,
            forall|i: int| 0 <= i < 3 * j ==> vertices@[i] == spec_vertices(ts)[i],
        decreases count - j,
    {
        let t = triangles[j];
        vertices.push(t.a);
        vertices.push(t.b);
        vertices.push(t.c);
        j = j + 1;
        assert(forall|i: int|
            0 <= i < 3 * j ==> vertices@[i] == spec_vertices(ts)[i]);
    }
    assert(vertices@ =~= spec_vertices(ts));

    let total: usize = 3 * count;
    let mut indices: Vec<u32> = Vec::new();
    let mut i: usize = 0;
    while i < total
        invariant
            i <= total,
            total <= 0x40000000,
            indices@.len() == i,
            forall|q: int| 0 <= q < i ==> indices@[q] == q as u32,
        decreases total - i,
    {
        indices.push(i as u32);
        i = i + 1;
    }
    assert(indices@ =~= spec_indices(total as int));

    let mut uvs: Vec<Vec2Fx> = Vec::new();
    let mut i2: usize = 0;
    while i2 < total
        invariant
            i2 <= total,
            uvs@.len() == i2,
            forall|q: int| 0 <= q < i2 ==> uvs@[q] == (Vec2Fx { u: 0i64, v: 0i64 }),
        decreases total - i2,
    {
        uvs.push(Vec2Fx { u: 0, v: 0 });
        i2 = i2 + 1;
    }
    assert(uvs@ =~= spec_uvs(total as int));

    let mut normals: Vec<Vec3Fx> = Vec::new();
    let mut j2: usize = 0;
    while j2 < count
        invariant
            j2 <= count,
            count == ts.len(),
            ts == triangles@,
            forall|q: int| 0 <= q < ts.len() ==> triangle_span_ok(#[trigger] ts[q]),
            normals@.len() == 3 * j2,
            forall|i: int| 0 <= i < 3 * j2 ==> normals@[i] == spec_normals(ts)[i],
        decreases count - j2,
    {
        let n = face_normal(&triangles[j2]);
        normals.push(n);
        normals.push(n);
        normals.push(n);
        j2 = j2 + 1;
        assert(forall|i: int|
            0 <= i < 3 * j2 ==> normals@[i] == spec_normals(ts)[i]);
    }
    assert(normals@ =~= spec_normals(ts));

    assert(total as int == 3 * ts.len());
    MeshPayload { vertices, indices, uvs, normals }
}

} // verus!
