use vstd::prelude::*;
use geo::Winding;
use crate::mesh::{
    point_in_range, ring_in_range, roof_index, valid_triangulation, BuiltMesh, LocalPoint, MAX_COORD,
    MAX_RING_LEN,
};

verus! {

/// `p` comes before `q` in lexicographic order (by `x`, then `y`).
pub open spec fn lex_lt(p: LocalPoint, q: LocalPoint) -> bool {
    p.x < q.x || (p.x == q.x && p.y < q.y)
}

/// Index of the first lexicographically least point among `s[0..k]`.
pub open spec fn least_index(s: Seq<LocalPoint>, k: int) -> int
    decreases k,
{
    if k <= 1 {
        0
    } else {
        let j = least_index(s, k - 1);
        if lex_lt(s[k - 1], s[j]) {
            k - 1
        } else {
            j
        }
    }
}

/// The first index `d` or more steps after `i`, going forward cyclically,
/// whose point differs from `s[i]`; `None` once a full turn is made.
pub open spec fn next_distinct(s: Seq<LocalPoint>, i: int, d: int) -> Option<int>
    decreases s.len() - d,
{
    if d < 1 || d >= s.len() {
        None
    } else if s[(i + d) % s.len() as int] != s[i] {
        Some((i + d) % s.len() as int)
    } else {
        next_distinct(s, i, d + 1)
    }
}

/// The same, going backward.
pub open spec fn prev_distinct(s: Seq<LocalPoint>, i: int, d: int) -> Option<int>
    decreases s.len() - d,
{
    if d < 1 || d >= s.len() {
        None
    } else if s[(i - d) % s.len() as int] != s[i] {
        Some((i - d) % s.len() as int)
    } else {
        prev_distinct(s, i, d + 1)
    }
}

/// Orientation of `p, q, r`: positive when they turn counter-clockwise.
pub open spec fn orient(p: LocalPoint, q: LocalPoint, r: LocalPoint) -> int {
    (q.x - p.x) * (r.y - q.y) - (q.y - p.y) * (r.x - q.x)
}

/// A closed line of at least four points winds counter-clockwise when, at its
/// lexicographically least corner, the nearest distinct points before and
/// after it turn counter-clockwise.
pub open spec fn winds_ccw(s: Seq<LocalPoint>) -> bool {
    if s.len() < 4 || s[0] != s.last() {
        false
    } else {
        let i = least_index(s, s.len() as int);
        match (prev_distinct(s, i, 1), next_distinct(s, i, 1)) {
            (Some(p), Some(q)) => orient(s[p], s[i], s[q]) > 0,
            _ => false,
        }
    }
}

/// The points of a closed line in clockwise order: reversed when it winds
/// counter-clockwise, as they are otherwise.
pub open spec fn clockwise_order(s: Seq<LocalPoint>) -> Seq<LocalPoint> {
    if winds_ccw(s) {
        s.reverse()
    } else {
        s
    }
}

/// Relies on geo's `Winding::points_cw` on an integer `LineString`: its
/// winding test takes the first lexicographically least point, the nearest
/// distinct points around it, and their orientation; the points come back
/// reversed when that is counter-clockwise. Coordinates are bounded so that
/// the orientation test does not overflow.
#[verifier::external_body]
fn clockwise(points: &Vec<LocalPoint>) -> (r: Vec<LocalPoint>)
    requires
        ring_in_range(points@),
    ensures
        r@ == clockwise_order(points@),
{
    let line: geo::LineString<i64> = points.iter().map(|p| geo::Coord { x: p.x, y: p.y }).collect();
    line.points_cw().map(|p| LocalPoint { x: p.x(), y: p.y() }).collect()
}

/// A closed line without its closing point: when the first and the last point
/// are the same, the last is dropped.
pub open spec fn open_ring(s: Seq<LocalPoint>) -> Seq<LocalPoint> {
    if s.len() > 0 && s[0] == s.last() {
        s.drop_last()
    } else {
        s
    }
}

/// Turns the exterior of a projected polygon into the ring that the mesh
/// builder takes: clockwise, and without the duplicated closing corner.
pub fn prepare_ring(exterior: &Vec<LocalPoint>) -> (r: Vec<LocalPoint>)
    requires
        ring_in_range(exterior@),
    ensures
        r@ == open_ring(clockwise_order(exterior@)),
        ring_in_range(r@),
        r@.len() <= exterior@.len(),
{
    let mut pts = clockwise(exterior);
    proof {
        if pts@ == exterior@.reverse() {
            assert forall|i: int| 0 <= i < pts@.len() implies point_in_range(#[trigger] pts@[i]) by {
                assert(pts@[i] == exterior@[exterior@.len() - 1 - i]);
            }
        }
    }
    let n = pts.len();
    if n > 0 && pts[0] == pts[n - 1] {
        pts.pop();
    }
    pts
}

/// Twice the signed area of the triangle `a b c`; positive when it turns
/// counter-clockwise.
pub open spec fn twice_triangle_area(a: LocalPoint, b: LocalPoint, c: LocalPoint) -> int {
    (b.x - a.x) * (c.y - a.y) - (c.x - a.x) * (b.y - a.y)
}

pub open spec fn abs(x: int) -> int {
    if x < 0 {
        -x
    } else {
        x
    }
}

/// The shoelace term of edge `i` of a ring, closing back to the first corner.
pub open spec fn shoelace_term(ring: Seq<LocalPoint>, i: int) -> int {
    let a = ring[i];
    let b = ring[(i + 1) % ring.len() as int];
    a.x * b.y - b.x * a.y
}

/// Sum of the first `k` shoelace terms.
pub open spec fn shoelace(ring: Seq<LocalPoint>, k: int) -> int
    decreases k,
{
    if k <= 0 {
        0
    } else {
        shoelace(ring, k - 1) + shoelace_term(ring, k - 1)
    }
}

/// Twice the area enclosed by a simple ring.
pub open spec fn twice_ring_area(ring: Seq<LocalPoint>) -> int {
    abs(shoelace(ring, ring.len() as int))
}

/// Twice the area of triangle `t` of a flat triangle list over `ring`.
pub open spec fn twice_piece_area(ring: Seq<LocalPoint>, tris: Seq<usize>, t: int) -> int {
    abs(twice_triangle_area(ring[tris[3 * t] as int], ring[tris[3 * t + 1] as int], ring[tris[3 * t + 2] as int]))
}

/// Twice the summed area of the first `t` triangles.
pub open spec fn twice_pieces_area(ring: Seq<LocalPoint>, tris: Seq<usize>, t: int) -> int
    decreases t,
{
    if t <= 0 {
        0
    } else {
        twice_pieces_area(ring, tris, t - 1) + twice_piece_area(ring, tris, t - 1)
    }
}

/// `tris` cuts the ring into `n - 2` triangles over its own corners whose
/// areas add up to the ring's area.
pub open spec fn triangulates(ring: Seq<LocalPoint>, tris: Seq<usize>) -> bool {
    &&& ring.len() >= 3
    &&& valid_triangulation(tris, ring.len() as int)
    &&& tris.len() == 3 * (ring.len() - 2)
    &&& twice_pieces_area(ring, tris, (tris.len() / 3) as int) == twice_ring_area(ring)
}

proof fn lemma_product_bound(x: int, y: int, m: int)
    requires
        -m <= x <= m,
        -m <= y <= m,
        0 <= m,
    ensures
        -(m * m) <= x * y <= m * m,
{
    assert(-(m * m) <= x * y <= m * m) by (nonlinear_arith)
        requires -m <= x <= m, -m <= y <= m, 0 <= m;
}

const SHOELACE_BOUND: i128 = 576_460_752_303_423_488;

const PIECE_BOUND: i128 = 2_305_843_009_213_693_952;

/// Twice the signed area of a ring, by the shoelace formula.
pub fn twice_signed_area(ring: &Vec<LocalPoint>) -> (r: i128)
    requires
        ring@.len() <= MAX_RING_LEN,
        ring_in_range(ring@),
    ensures
        r == shoelace(ring@, ring@.len() as int),
        abs(r as int) <= ring@.len() * 576_460_752_303_423_488,
{
    let n = ring.len();
    let mut acc: i128 = 0;
    let mut i: usize = 0;
    while i < n
        invariant
            n == ring@.len(),
            n <= MAX_RING_LEN,
            ring_in_range(ring@),
            i <= n,
            acc == shoelace(ring@, i as int),
            -(i * SHOELACE_BOUND) <= acc <= i * SHOELACE_BOUND,
        decreases n - i,
    {
        let j = if i + 1 == n { 0 } else { i + 1 };
        proof {
            if i + 1 < n {
                vstd::arithmetic::div_mod::lemma_small_mod((i + 1) as nat, n as nat);
            } else {
                vstd::arithmetic::div_mod::lemma_mod_self_0(n as int);
            }
        }
        let a = ring[i];
        let b = ring[j];
        assert(point_in_range(ring@[i as int]) && point_in_range(ring@[j as int]));
        proof {
            lemma_product_bound(a.x as int, b.y as int, MAX_COORD as int);
            lemma_product_bound(b.x as int, a.y as int, MAX_COORD as int);
        }
        let term = (a.x as i128) * (b.y as i128) - (b.x as i128) * (a.y as i128);
        assert(term == shoelace_term(ring@, i as int));
        acc = acc + term;
        i += 1;
    }
    acc
}

/// Whether `tris` (a flat list of corner triples) triangulates `ring`: it has
/// `n - 2` triangles, all over the ring's corners, and their areas add up to
/// the ring's area.
pub fn is_triangulation_of(ring: &Vec<LocalPoint>, tris: &Vec<usize>) -> (r: bool)
    requires
        ring@.len() <= MAX_RING_LEN,
        ring_in_range(ring@),
    ensures
        r == triangulates(ring@, tris@),
{
    let n = ring.len();
    if n < 3 || tris.len() != 3 * (n - 2) {
        return false;
    }
    let mut i: usize = 0;
    while i < tris.len()
        invariant
            n == ring@.len(),
            i <= tris@.len(),
            forall|j: int| 0 <= j < i ==> (#[trigger] tris@[j]) < n,
        decreases tris.len() - i,
    {
        if tris[i] >= n {
            return false;
        }
        i += 1;
    }
    assert(valid_triangulation(tris@, n as int));
    let count = n - 2;
    let mut sum: i128 = 0;
    let mut t: usize = 0;
    while t < count
        invariant
            n == ring@.len(),
            n <= MAX_RING_LEN,
            count == n - 2,
            tris@.len() == 3 * count,
            ring_in_range(ring@),
            valid_triangulation(tris@, n as int),
            t <= count,
            sum == twice_pieces_area(ring@, tris@, t as int),
            0 <= sum <= t * PIECE_BOUND,
        decreases count - t,
    {
        assert(tris@[3 * t as int] < n && tris@[3 * t + 1] < n && tris@[3 * t + 2] < n);
        let a = ring[tris[3 * t]];
        let b = ring[tris[3 * t + 1]];
        let c = ring[tris[3 * t + 2]];
        assert(point_in_range(a) && point_in_range(b) && point_in_range(c));
        let bx = (b.x as i128) - (a.x as i128);
        let by = (b.y as i128) - (a.y as i128);
        let cx = (c.x as i128) - (a.x as i128);
        let cy = (c.y as i128) - (a.y as i128);
        proof {
            lemma_product_bound(bx as int, cy as int, 2 * MAX_COORD as int);
            lemma_product_bound(cx as int, by as int, 2 * MAX_COORD as int);
        }
        let area = bx * cy - cx * by;
        let piece = if area < 0 { -area } else { area };
        assert(piece == twice_piece_area(ring@, tris@, t as int));
        sum = sum + piece;
        t += 1;
    }
    assert(tris@.len() / 3 == count);
    let whole = twice_signed_area(ring);
    let whole_abs = if whole < 0 { -whole } else { whole };
    sum == whole_abs
}

/// A roof cut by a triangulation of its ring of `n` corners has `n - 2`
/// triangles over the roof's own vertices, and the whole building mesh then
/// has `3n - 2` triangles.
pub proof fn lemma_roof_of_triangulation(m: &BuiltMesh, ring: Seq<LocalPoint>, height: i64, tris: Seq<usize>)
    requires
        m.is_building_mesh(ring, height, tris),
        triangulates(ring, tris),
    ensures
        tris.len() / 3 == ring.len() - 2,
        forall|k: int| 0 <= k < tris.len() ==> #[trigger] m.indices@[k] < ring.len(),
        m.indices.len() / 3 == 3 * ring.len() - 2,
{
    assert forall|k: int| 0 <= k < tris.len() implies #[trigger] m.indices@[k] < ring.len() by {
        let t = k / 3 * 3;
        assert(0 <= t && t + 2 < tris.len());
        assert(m.indices@[k] as int == roof_index(tris, k));
        assert(tris[t] < ring.len() && tris[t + 1] < ring.len() && tris[t + 2] < ring.len());
    }
}

} // verus!
