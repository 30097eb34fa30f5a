//! Regular polygons: where their vertices stand and which edges join them.
//!
//! The angle of a vertex is worked out exactly, as a quotient of whole
//! numbers. Sine and cosine are beyond integer arithmetic: the caller takes
//! them of that angle and hands them back as fractions, and `place_vertex`
//! sets the point.

use vstd::prelude::*;
use crate::classifier::FULL_TURN;
use crate::geometry::Point;
use crate::units::{round_div, HALF, ONE};

verus! {

/// One place in the cycle: an edge, from `start` to `end`, and the label that
/// pulses while the edge is lit.
#[derive(Clone, Copy, Debug, PartialEq, Eq, Structural)]
pub struct Slot {
    pub start: Point,
    pub end: Point,
    pub label: u64,
}

/// An angle held exactly: `numer / denom` millionths of a degree.
#[derive(Clone, Copy, Debug, PartialEq, Eq, Structural)]
pub struct VertexAngle {
    pub numer: i128,
    pub denom: u32,
}

/// The angle of vertex `index` of a polygon of `n` vertices whose reference
/// direction is turned by `base`, times `n`. The vertices are counted against
/// the angle: vertex `index` stands `n - index` steps of a full turn over `n`
/// past the base angle.
pub open spec fn vertex_angle_numer(n: int, base: int, index: int) -> int {
    base * n + FULL_TURN * (n - index)
}

/// The product of a length and a signed fraction, rounded to the nearest
/// whole number, a tie going away from zero.
pub open spec fn scaled(length: int, fraction: int) -> int {
    let product = length * fraction;
    if product >= 0 {
        round_div(product, ONE as int)
    } else {
        -round_div(-product, ONE as int)
    }
}

/// The edges of the polygon through `vertices`: edge `i` goes from vertex `i`
/// to the next one, the last edge back to the first vertex, and carries the
/// label `first_label + i`.
pub open spec fn edges_of(vertices: Seq<Point>, first_label: int) -> Seq<Slot> {
    Seq::new(
        vertices.len(),
        |i: int|
            Slot {
                start: vertices[i],
                end: vertices[(i + 1) % (vertices.len() as int)],
                label: (first_label + i) as u64,
            },
    )
}

/// The angle of vertex `index` of a polygon of `n` vertices whose reference
/// direction is turned by `base` millionths of a degree.
pub fn vertex_angle(n: u32, base: i32, index: u32) -> (angle: VertexAngle)
    requires
        n >= 1,
    ensures
        angle.denom == n,
        angle.numer == vertex_angle_numer(n as int, base as int, index as int),
{
    let steps: i128 = n as i128 - index as i128;
    assert(-0x8000_0000 * 0x1_0000_0000 <= base * n <= 0x8000_0000 * 0x1_0000_0000 && -360_000_000
        * 0x1_0000_0000 <= FULL_TURN * steps <= 360_000_000 * 0x1_0000_0000) by (nonlinear_arith)
        requires
            -0x8000_0000 <= base <= 0x8000_0000,
            0 <= n <= 0x1_0000_0000,
            -0x1_0000_0000 <= steps <= 0x1_0000_0000,
            FULL_TURN == 360_000_000,
    ;
    VertexAngle { numer: base as i128 * n as i128 + FULL_TURN as i128 * steps, denom: n }
}

/// One coordinate of a vertex: `length` times the signed fraction
/// `fraction`, rounded.
pub fn scale(length: i32, fraction: i32) -> (coordinate: i32)
    requires
        length > i32::MIN,
        -ONE <= fraction <= ONE,
    ensures
        coordinate == scaled(length as int, fraction as int),
        -length <= coordinate <= length || length <= coordinate <= -length,
{
    assert(-(0x7fff_ffff * ONE) <= length * fraction <= 0x7fff_ffff * ONE) by (nonlinear_arith)
        requires
            -0x7fff_ffff <= length <= 0x7fff_ffff,
            -ONE <= fraction <= ONE,
    ;
    let product: i64 = length as i64 * fraction as i64;
    assert(length >= 0 ==> -(length * ONE) <= length * fraction <= length * ONE)
        by (nonlinear_arith)
        requires
            -ONE <= fraction <= ONE,
    ;
    assert(length <= 0 ==> length * ONE <= length * fraction <= -(length * ONE))
        by (nonlinear_arith)
        requires
            -ONE <= fraction <= ONE,
    ;
    if product >= 0 {
        ((product + HALF as i64) / ONE as i64) as i32
    } else {
        (-((-product + HALF as i64) / ONE as i64)) as i32
    }
}

/// The vertex that stands `radius` from the centre in the direction whose
/// sine and cosine are given, the centre being the origin: the sine gives
/// the x coordinate and the cosine the y coordinate, so that the angle zero
/// points along the y axis.
pub fn place_vertex(radius: i32, sine: i32, cosine: i32) -> (vertex: Point)
    requires
        radius > i32::MIN,
        -ONE <= sine <= ONE,
        -ONE <= cosine <= ONE,
    ensures
        vertex@ == (scaled(radius as int, sine as int), scaled(radius as int, cosine as int)),
{
    Point { x: scale(radius, sine), y: scale(radius, cosine) }
}

/// Adds to `table` the edges of the polygon through `vertices`, labelled from
/// `first_label` on.
pub fn append_edges(table: &mut Vec<Slot>, vertices: &Vec<Point>, first_label: u64)
    requires
        first_label + vertices.len() <= u64::MAX,
    ensures
        final(table)@ == old(table)@ + edges_of(vertices@, first_label as int),
{
    let count: usize = vertices.len();
    let ghost before = table@;
    let mut i: usize = 0;
    while i < count
        invariant
            i <= count,
            count == vertices.len(),
            first_label + count <= u64::MAX,
            table@ == before + edges_of(vertices@, first_label as int).subrange(0, i as int),
        decreases count - i,
    {
        let next: usize = if i + 1 < count {
            i + 1
        } else {
            0
        };
        proof {
            if i + 1 < count {
                vstd::arithmetic::div_mod::lemma_small_mod((i + 1) as nat, count as nat);
            } else {
                vstd::arithmetic::div_mod::lemma_mod_self_0(count as int);
            }
        }
        let slot = Slot { start: vertices[i], end: vertices[next], label: first_label + i as u64 };
        table.push(slot);
        proof {
            let edges = edges_of(vertices@, first_label as int);
            assert(edges[i as int] == slot);
            assert(edges.subrange(0, i + 1) == edges.subrange(0, i as int).push(slot));
        }
        i = i + 1;
    }
    proof {
        let edges = edges_of(vertices@, first_label as int);
        assert(edges.subrange(0, count as int) == edges);
    }
}

/// The table of the edges of one polygon, labelled from `first_label` on.
pub fn edge_table(vertices: &Vec<Point>, first_label: u64) -> (table: Vec<Slot>)
    requires
        first_label + vertices.len() <= u64::MAX,
    ensures
        table@ == edges_of(vertices@, first_label as int),
{
    let mut table: Vec<Slot> = Vec::new();
    append_edges(&mut table, vertices, first_label);
    table
}

/// The vertices stand evenly round the centre: from any vertex to the next
/// the angle falls by exactly a full turn over `n`, and so from vertex `i` to
/// vertex `j` by `j - i` such steps. The angles are compared by their
/// numerators over the common denominator `n`.
pub proof fn vertices_are_evenly_spaced(n: int, base: int, i: int, j: int)
    ensures
        vertex_angle_numer(n, base, i) - vertex_angle_numer(n, base, i + 1) == FULL_TURN,
        vertex_angle_numer(n, base, i) - vertex_angle_numer(n, base, j) == FULL_TURN * (j - i),
{
    assert(FULL_TURN * (n - i) - FULL_TURN * (n - (i + 1)) == FULL_TURN) by (nonlinear_arith);
    assert(FULL_TURN * (n - i) - FULL_TURN * (n - j) == FULL_TURN * (j - i))
        by (nonlinear_arith);
}

/// No two vertices of a polygon stand in the same direction: the angles of
/// two of its `n` vertices differ by more than nothing and by less than a
/// full turn.
pub proof fn vertices_are_distinct(n: int, base: int, i: int, j: int)
    requires
        0 <= i < j < n,
    ensures
        0 < vertex_angle_numer(n, base, i) - vertex_angle_numer(n, base, j) < FULL_TURN * n,
{
    vertices_are_evenly_spaced(n, base, i, j);
    assert(0 < FULL_TURN * (j - i) < FULL_TURN * n) by (nonlinear_arith)
        requires
            0 < j - i < n,
            FULL_TURN == 360_000_000,
    ;
}

/// A scaled length, times `ONE`, is within half of `ONE` of the exact
/// product.
proof fn scaled_is_near_product(length: int, fraction: int)
    ensures
        -HALF <= ONE * scaled(length, fraction) - length * fraction <= HALF,
{
}

/// All vertices of one radius lie near one circle round the centre. Where
/// sine and cosine are those of an angle, each rounded to the nearest
/// millionth, the sum of their squares is within `2 * ONE` of the square of
/// `ONE`; the square of the distance of the vertex from the centre then
/// differs from the square of the radius by no more than twice the radius,
/// two millionths of its square, and a half.
pub proof fn vertex_lies_near_circle(radius: int, sine: int, cosine: int)
    requires
        -ONE <= sine <= ONE,
        -ONE <= cosine <= ONE,
        -2 * ONE <= sine * sine + cosine * cosine - ONE * ONE <= 2 * ONE,
    ensures
        ({
            let x = scaled(radius, sine);
            let y = scaled(radius, cosine);
            let reach = if radius >= 0 {
                radius
            } else {
                -radius
            };
            let bound = 2 * (radius * radius) + 2 * reach * ONE + HALF;
            -bound <= ONE * (x * x + y * y - radius * radius) <= bound
        }),
{
    let x = scaled(radius, sine);
    let y = scaled(radius, cosine);
    let reach = if radius >= 0 {
        radius
    } else {
        -radius
    };
    let ex = ONE * x - radius * sine;
    let ey = ONE * y - radius * cosine;
    scaled_is_near_product(radius, sine);
    scaled_is_near_product(radius, cosine);
    let off = x * x + y * y - radius * radius;
    let defect = sine * sine + cosine * cosine - ONE * ONE;
    let first = (radius * radius) * defect;
    let cross = sine * ex + cosine * ey;
    let second = 2 * (radius * cross);
    let third = ex * ex + ey * ey;
    let u = radius * sine;
    let v = radius * cosine;
    let square = radius * radius;
    assert(ONE * (ONE * (x * x)) == (u + ex) * (u + ex)) by (nonlinear_arith)
        requires
            ONE * x == u + ex,
    ;
    assert(ONE * (ONE * (y * y)) == (v + ey) * (v + ey)) by (nonlinear_arith)
        requires
            ONE * y == v + ey,
    ;
    assert((u + ex) * (u + ex) == u * u + 2 * (u * ex) + ex * ex) by (nonlinear_arith);
    assert((v + ey) * (v + ey) == v * v + 2 * (v * ey) + ey * ey) by (nonlinear_arith);
    assert(u * u == square * (sine * sine) && u * ex == radius * (sine * ex)) by (nonlinear_arith)
        requires
            u == radius * sine,
            square == radius * radius,
    ;
    assert(v * v == square * (cosine * cosine) && v * ey == radius * (cosine * ey))
        by (nonlinear_arith)
        requires
            v == radius * cosine,
            square == radius * radius,
    ;
    assert(square * (sine * sine) + square * (cosine * cosine) - ONE * (ONE * square) == first)
        by (nonlinear_arith)
        requires
            first == square * defect,
            defect == sine * sine + cosine * cosine - ONE * ONE,
    ;
    assert(2 * (radius * (sine * ex)) + 2 * (radius * (cosine * ey)) == second)
        by (nonlinear_arith)
        requires
            second == 2 * (radius * cross),
            cross == sine * ex + cosine * ey,
    ;
    assert(ONE * (ONE * off) == ONE * (ONE * (x * x)) + ONE * (ONE * (y * y)) - ONE * (ONE
        * square)) by (nonlinear_arith)
        requires
            off == x * x + y * y - square,
    ;
    assert(ONE * (ONE * off) == first + second + third);
    assert(0 <= square && -(2 * ONE * square) <= first <= 2 * ONE * square) by (nonlinear_arith)
        requires
            square == radius * radius,
            first == square * defect,
            -2 * ONE <= defect <= 2 * ONE,
    ;
    assert(-(ONE * ONE) <= cross <= ONE * ONE) by (nonlinear_arith)
        requires
            cross == sine * ex + cosine * ey,
            -ONE <= sine <= ONE,
            -ONE <= cosine <= ONE,
            -HALF <= ex <= HALF,
            -HALF <= ey <= HALF,
            HALF + HALF == ONE,
    ;
    assert(-(2 * reach * (ONE * ONE)) <= second <= 2 * reach * (ONE * ONE)) by (nonlinear_arith)
        requires
            second == 2 * (radius * cross),
            -(ONE * ONE) <= cross <= ONE * ONE,
            reach >= 0,
            reach == radius || reach == -radius,
    ;
    assert(0 <= third <= HALF * ONE) by (nonlinear_arith)
        requires
            third == ex * ex + ey * ey,
            -HALF <= ex <= HALF,
            -HALF <= ey <= HALF,
            HALF + HALF == ONE,
    ;
    let bound = 2 * square + 2 * reach * ONE + HALF;
    assert(ONE * bound == 2 * ONE * square + 2 * reach * (ONE * ONE) + HALF * ONE)
        by (nonlinear_arith)
        requires
            bound == 2 * square + 2 * reach * ONE + HALF,
    ;
    assert(-bound <= ONE * off <= bound) by (nonlinear_arith)
        requires
            -(ONE * bound) <= ONE * (ONE * off) <= ONE * bound,
            ONE == 1_000_000,
    ;
}

/// The edges of a polygon go round it: there is one edge to each vertex, each
/// edge ends where the next one starts, and the last one ends where the first
/// one starts.
pub proof fn edges_go_round(vertices: Seq<Point>, first_label: int, i: int)
    requires
        0 <= i < vertices.len(),
    ensures
        edges_of(vertices, first_label).len() == vertices.len(),
        edges_of(vertices, first_label)[i].start == vertices[i],
        edges_of(vertices, first_label)[i].end == edges_of(vertices, first_label)[(i + 1) % (
        vertices.len() as int)].start,
        edges_of(vertices, first_label)[vertices.len() - 1].end == edges_of(
            vertices,
            first_label,
        )[0].start,
{
    let count = vertices.len() as int;
    vstd::arithmetic::div_mod::lemma_mod_bound(i + 1, count);
    vstd::arithmetic::div_mod::lemma_mod_self_0(count);
}

} // verus!
