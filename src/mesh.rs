use vstd::prelude::*;
use itertools::Itertools;
use vstd::arithmetic::div_mod::{lemma_mod_self_0, lemma_small_mod};

verus! {

/// Largest coordinate magnitude of a projected point, in millimetres
/// (about 537 km): differences and cross products of such points fit an `i64`.
pub const MAX_COORD: i64 = 536_870_912;

/// Largest ring that a mesh can be built from: five vertices per corner must
/// stay addressable by a `u32` index.
pub const MAX_RING_LEN: usize = 858_993_459;

/// Shade of the roof vertices.
pub const ROOF_SHADE: u8 = 255;

/// Shade of the wall vertices, darker than the roof.
pub const WALL_SHADE: u8 = 128;

/// A point of the local plane, in millimetres from the feature's origin.
#[derive(Clone, Copy, Debug, PartialEq, Eq, Structural)]
pub struct LocalPoint {
    pub x: i64,
    pub y: i64,
}

/// An integer 3D vector; `y` is the vertical axis.
#[derive(Clone, Copy, Debug, PartialEq, Eq, Structural)]
pub struct Vec3i {
    pub x: i64,
    pub y: i64,
    pub z: i64,
}

/// A colour, one byte per channel, alpha last.
#[derive(Clone, Copy, Debug, PartialEq, Eq, Structural)]
pub struct Rgba8 {
    pub r: u8,
    pub g: u8,
    pub b: u8,
    pub a: u8,
}

/// The ring corner that a mesh vertex stands over, and whether it is at the
/// top (roof height) or at the bottom (ground).
#[derive(Clone, Copy, Debug, PartialEq, Eq, Structural)]
pub struct VertexSource {
    pub corner: usize,
    pub top: bool,
}

/// Why a feature's geometry could not be built.
#[derive(Clone, Copy, Debug, PartialEq, Eq, Structural)]
pub enum GeometryError {
    /// The ring has no vertex at all.
    EmptyRing,
    /// The ring has one or two vertices, which bound no area.
    TooFewVertices,
    /// The triangulation failed, or returned something that is not a list of
    /// triangles over the ring's vertices.
    Triangulation,
}

/// An indexed triangle mesh with four position-aligned attribute streams.
/// Normals are integer directions (the renderer normalises them); `sources`
/// tells, for each vertex, the corner of the ring it was made from.
pub struct BuiltMesh {
    pub positions: Vec<Vec3i>,
    pub normals: Vec<Vec3i>,
    pub colors: Vec<Rgba8>,
    pub sources: Vec<VertexSource>,
    pub indices: Vec<u32>,
}

#[verifier::external_type_specification]
#[verifier::external_body]
pub struct ExEarcutError(earcutr::Error);

pub open spec fn point_in_range(p: LocalPoint) -> bool {
    -MAX_COORD <= p.x <= MAX_COORD && -MAX_COORD <= p.y <= MAX_COORD
}

pub open spec fn ring_in_range(ring: Seq<LocalPoint>) -> bool {
    forall|i: int| 0 <= i < ring.len() ==> point_in_range(#[trigger] ring[i])
}

pub open spec fn roof_color() -> Rgba8 {
    Rgba8 { r: ROOF_SHADE, g: ROOF_SHADE, b: ROOF_SHADE, a: 255 }
}

pub open spec fn wall_color() -> Rgba8 {
    Rgba8 { r: WALL_SHADE, g: WALL_SHADE, b: WALL_SHADE, a: 255 }
}

pub open spec fn up() -> Vec3i {
    Vec3i { x: 0, y: 1, z: 0 }
}

/// Mesh vertex `v` of a ring of `n` corners: the first `n` vertices are the
/// roof, one per corner; then each wall `w` has four vertices, bottom and top
/// of corner `w`, then bottom and top of the next corner (circularly).
pub open spec fn source_of(n: int, v: int) -> VertexSource {
    if v < n {
        VertexSource { corner: v as usize, top: true }
    } else {
        let w = (v - n) / 4;
        let j = (v - n) % 4;
        VertexSource { corner: (if j < 2 { w } else { (w + 1) % n }) as usize, top: j % 2 == 1 }
    }
}

/// A plane point raised to `elevation`: the plane's `y` becomes depth `z`.
pub open spec fn lift(p: LocalPoint, elevation: i64) -> Vec3i {
    Vec3i { x: p.x, y: elevation, z: p.y }
}

pub open spec fn position_of(ring: Seq<LocalPoint>, height: i64, v: int) -> Vec3i {
    let s = source_of(ring.len() as int, v);
    lift(ring[s.corner as int], if s.top { height } else { 0 })
}

/// Normal of the wall over the edge from `a` to `b`: the edge direction
/// crossed with the up axis.
pub open spec fn wall_normal(a: LocalPoint, b: LocalPoint) -> Vec3i {
    Vec3i { x: (a.y - b.y) as i64, y: 0, z: (b.x - a.x) as i64 }
}

pub open spec fn normal_of(ring: Seq<LocalPoint>, v: int) -> Vec3i {
    let n = ring.len() as int;
    if v < n {
        up()
    } else {
        let w = (v - n) / 4;
        wall_normal(ring[w], ring[(w + 1) % n])
    }
}

pub open spec fn color_of(n: int, v: int) -> Rgba8 {
    if v < n {
        roof_color()
    } else {
        wall_color()
    }
}

/// A flat list of triangles over the vertices `0..n`.
pub open spec fn valid_triangulation(tris: Seq<usize>, n: int) -> bool {
    tris.len() % 3 == 0 && forall|i: int| 0 <= i < tris.len() ==> (#[trigger] tris[i]) < n
}

/// Roof index `k`: each triangle `(a, b, c)` of the triangulation is turned
/// to `(a, c, b)`, so that the roof faces up.
pub open spec fn roof_index(tris: Seq<usize>, k: int) -> int {
    let t = k / 3 * 3;
    let j = k % 3;
    if j == 0 {
        tris[t] as int
    } else if j == 1 {
        tris[t + 2] as int
    } else {
        tris[t + 1] as int
    }
}

pub open spec fn wall_corner_offset(j: int) -> int {
    if j == 0 {
        0
    } else if j == 1 {
        2
    } else if j == 2 {
        1
    } else if j == 3 {
        1
    } else if j == 4 {
        2
    } else {
        3
    }
}

/// Wall index `k` of a ring of `n` corners: wall `w` is the quad
/// `n + 4w .. n + 4w + 4`, cut in the triangles `(0, 2, 1)` and `(1, 2, 3)`.
pub open spec fn wall_index(n: int, k: int) -> int {
    n + 4 * (k / 6) + wall_corner_offset(k % 6)
}

impl BuiltMesh {
    /// The streams are aligned, and the indices form triangles over the
    /// vertices.
    pub open spec fn well_formed(&self) -> bool {
        &&& self.normals.len() == self.positions.len()
        &&& self.colors.len() == self.positions.len()
        &&& self.sources.len() == self.positions.len()
        &&& self.indices.len() % 3 == 0
        &&& forall|k: int|
            0 <= k < self.indices.len() ==> (#[trigger] self.indices@[k]) < self.positions.len()
    }

    /// The mesh of a building over `ring`, `height` tall, whose roof is cut
    /// by `tris`: roof vertices, then one quad per wall, then roof indices
    /// followed by wall indices.
    pub open spec fn is_building_mesh(&self, ring: Seq<LocalPoint>, height: i64, tris: Seq<usize>) -> bool {
        let n = ring.len() as int;
        &&& self.positions.len() == 5 * n
        &&& self.normals.len() == 5 * n
        &&& self.colors.len() == 5 * n
        &&& self.sources.len() == 5 * n
        &&& forall|v: int| 0 <= v < 5 * n ==> #[trigger] self.positions@[v] == position_of(ring, height, v)
        &&& forall|v: int| 0 <= v < 5 * n ==> #[trigger] self.normals@[v] == normal_of(ring, v)
        &&& forall|v: int| 0 <= v < 5 * n ==> #[trigger] self.colors@[v] == color_of(n, v)
        &&& forall|v: int| 0 <= v < 5 * n ==> #[trigger] self.sources@[v] == source_of(n, v)
        &&& self.indices.len() == tris.len() + 6 * n
        &&& forall|k: int| 0 <= k < tris.len() ==> #[trigger] self.indices@[k] as int == roof_index(tris, k)
        &&& forall|k: int|
            0 <= k < 6 * n ==> #[trigger] self.indices@[tris.len() + k] as int == wall_index(n, k)
    }

    /// The flat mesh of an area: one vertex per outline point, at
    /// `elevation` and facing up, cut by `tris` turned as a roof is.
    pub open spec fn is_area_mesh(&self, outline: Seq<LocalPoint>, elevation: i64, tris: Seq<usize>) -> bool {
        let n = outline.len() as int;
        &&& self.positions.len() == n
        &&& self.normals.len() == n
        &&& self.colors.len() == n
        &&& self.sources.len() == n
        &&& forall|v: int| 0 <= v < n ==> #[trigger] self.positions@[v] == lift(outline[v], elevation)
        &&& forall|v: int| 0 <= v < n ==> #[trigger] self.normals@[v] == up()
        &&& forall|v: int| 0 <= v < n ==> #[trigger] self.colors@[v] == roof_color()
        &&& forall|v: int| 0 <= v < n ==> #[trigger] self.sources@[v] == (VertexSource { corner: v as usize, top: true })
        &&& self.indices.len() == tris.len()
        &&& forall|k: int| 0 <= k < tris.len() ==> #[trigger] self.indices@[k] as int == roof_index(tris, k)
    }

    /// Number of triangles of the mesh.
    pub fn triangle_count(&self) -> (r: usize)
        ensures
            r == self.indices.len() / 3,
    {
        self.indices.len() / 3
    }
}

/// Relies on itertools' `circular_tuple_windows`: one pair per element, each
/// element with the one after it, the last with the first.
#[verifier::external_body]
fn circular_pairs(ring: &Vec<LocalPoint>) -> (r: Vec<(LocalPoint, LocalPoint)>)
    ensures
        r@.len() == ring@.len(),
        forall|i: int|
            0 <= i < ring@.len() ==> #[trigger] r@[i] == (ring@[i], ring@[(i + 1) % ring@.len() as int]),
{
    ring.iter().copied().circular_tuple_windows().collect()
}

/// Checks that `tris` is a list of triangles over the corners `0..n`, and
/// turns each triangle `(a, b, c)` into `(a, c, b)`.
pub fn roof_indices(tris: &Vec<usize>, n: usize) -> (r: Option<Vec<u32>>)
    requires
        n <= MAX_RING_LEN,
    ensures
        r is Some <==> valid_triangulation(tris@, n as int),
        r matches Some(ix) ==> ix@.len() == tris@.len() && forall|k: int|
            0 <= k < tris@.len() ==> #[trigger] ix@[k] as int == roof_index(tris@, k),
{
    if tris.len() % 3 != 0 {
        return None;
    }
    let mut i: usize = 0;
    while i < tris.len()
        invariant
            i <= tris.len(),
            forall|j: int| 0 <= j < i ==> (#[trigger] tris@[j]) < n,
        decreases tris.len() - i,
    {
        if tris[i] >= n {
            return None;
        }
        i += 1;
    }
    let mut ix: Vec<u32> = Vec::new();
    let mut t: usize = 0;
    while t < tris.len()
        invariant
            valid_triangulation(tris@, n as int),
            n <= MAX_RING_LEN,
            t <= tris.len(),
            t % 3 == 0,
            ix@.len() == t,
            forall|k: int| 0 <= k < t ==> #[trigger] ix@[k] as int == roof_index(tris@, k),
        decreases tris.len() - t,
    {
        let a = tris[t];
        let b = tris[t + 1];
        let c = tris[t + 2];
        ix.push(a as u32);
        ix.push(c as u32);
        ix.push(b as u32);
        t += 3;
    }
    Some(ix)
}

/// Builds the mesh of a building: the ring's corners at `height` form the
/// roof, cut by the triangulation `triangulated`; each edge of the ring,
/// taken circularly, gets a wall quad from the ground to `height`.
pub fn build_building_mesh(
    ring: &Vec<LocalPoint>,
    height: i64,
    triangulated: Result<Vec<usize>, earcutr::Error>,
) -> (r: Result<BuiltMesh, GeometryError>)
    requires
        ring@.len() <= MAX_RING_LEN,
        ring_in_range(ring@),
    ensures
        ring@.len() == 0 ==> r == Err::<BuiltMesh, GeometryError>(GeometryError::EmptyRing),
        0 < ring@.len() < 3 ==> r == Err::<BuiltMesh, GeometryError>(GeometryError::TooFewVertices),
        ring@.len() >= 3 ==> match triangulated {
            Err(_) => r == Err::<BuiltMesh, GeometryError>(GeometryError::Triangulation),
            Ok(tris) => if valid_triangulation(tris@, ring@.len() as int) {
                r matches Ok(m) && m.is_building_mesh(ring@, height, tris@)
            } else {
                r == Err::<BuiltMesh, GeometryError>(GeometryError::Triangulation)
            },
        },
        r matches Ok(m) ==> m.well_formed(),
{
    let n = ring.len();
    if n == 0 {
        return Err(GeometryError::EmptyRing);
    }
    if n < 3 {
        return Err(GeometryError::TooFewVertices);
    }
    let tris = match triangulated {
        Ok(t) => t,
        Err(_) => {
            return Err(GeometryError::Triangulation);
        },
    };
    let mut indices = match roof_indices(&tris, n) {
        Some(ix) => ix,
        None => {
            return Err(GeometryError::Triangulation);
        },
    };
    let ghost roof = indices@;
    let mut positions: Vec<Vec3i> = Vec::new();
    let mut normals: Vec<Vec3i> = Vec::new();
    let mut colors: Vec<Rgba8> = Vec::new();
    let mut sources: Vec<VertexSource> = Vec::new();
    let mut i: usize = 0;
    while i < n
        invariant
            n == ring@.len(),
            i <= n,
            positions@.len() == i,
            normals@.len() == i,
            colors@.len() == i,
            sources@.len() == i,
            forall|v: int| 0 <= v < i ==> #[trigger] positions@[v] == position_of(ring@, height, v),
            forall|v: int| 0 <= v < i ==> #[trigger] normals@[v] == normal_of(ring@, v),
            forall|v: int| 0 <= v < i ==> #[trigger] colors@[v] == color_of(n as int, v),
            forall|v: int| 0 <= v < i ==> #[trigger] sources@[v] == source_of(n as int, v),
        decreases n - i,
    {
        let p = ring[i];
        positions.push(Vec3i { x: p.x, y: height, z: p.y });
        normals.push(Vec3i { x: 0, y: 1, z: 0 });
        colors.push(Rgba8 { r: ROOF_SHADE, g: ROOF_SHADE, b: ROOF_SHADE, a: 255 });
        sources.push(VertexSource { corner: i, top: true });
        i += 1;
    }
    let edges = circular_pairs(ring);
    let base = n as u32;
    let mut w: usize = 0;
    while w < n
        invariant
            n == ring@.len(),
            3 <= n <= MAX_RING_LEN,
            base == n,
            ring_in_range(ring@),
            edges@.len() == n,
            forall|e: int| 0 <= e < n ==> #[trigger] edges@[e] == (ring@[e], ring@[(e + 1) % n as int]),
            w <= n,
            positions@.len() == n + 4 * w,
            normals@.len() == n + 4 * w,
            colors@.len() == n + 4 * w,
            sources@.len() == n + 4 * w,
            forall|v: int| 0 <= v < n + 4 * w ==> #[trigger] positions@[v] == position_of(ring@, height, v),
            forall|v: int| 0 <= v < n + 4 * w ==> #[trigger] normals@[v] == normal_of(ring@, v),
            forall|v: int| 0 <= v < n + 4 * w ==> #[trigger] colors@[v] == color_of(n as int, v),
            forall|v: int| 0 <= v < n + 4 * w ==> #[trigger] sources@[v] == source_of(n as int, v),
            indices@.len() == tris@.len() + 6 * w,
            valid_triangulation(tris@, n as int),
            roof.len() == tris@.len(),
            forall|k: int| 0 <= k < tris@.len() ==> #[trigger] roof[k] as int == roof_index(tris@, k),
            forall|k: int| 0 <= k < tris@.len() ==> #[trigger] indices@[k] == roof[k],
            forall|k: int| 0 <= k < 6 * w ==> #[trigger] indices@[tris@.len() + k] as int == wall_index(n as int, k),
        decreases n - w,
    {
        let (a, b) = edges[w];
        let next = if w + 1 == n { 0 } else { w + 1 };
        assert(point_in_range(ring@[w as int]));
        assert(point_in_range(ring@[(w + 1) % n as int]));
        assert(edges@[w as int] == (ring@[w as int], ring@[(w + 1) % n as int]));
        proof {
            if w + 1 < n {
                lemma_small_mod((w + 1) as nat, n as nat);
            } else {
                lemma_mod_self_0(n as int);
            }
        }
        assert(next as int == (w + 1) % n as int);
        let normal = Vec3i { x: a.y - b.y, y: 0, z: b.x - a.x };
        assert(normal == wall_normal(ring@[w as int], ring@[(w + 1) % n as int]));
        let ghost before = positions@.len() as int;
        positions.push(Vec3i { x: a.x, y: 0, z: a.y });
        positions.push(Vec3i { x: a.x, y: height, z: a.y });
        positions.push(Vec3i { x: b.x, y: 0, z: b.y });
        positions.push(Vec3i { x: b.x, y: height, z: b.y });
        let mut j: usize = 0;
        while j < 4
            invariant
                j <= 4,
                normals@.len() == n + 4 * w + j,
                colors@.len() == n + 4 * w + j,
                sources@.len() == n + 4 * w + j,
                forall|v: int| 0 <= v < n + 4 * w ==> #[trigger] normals@[v] == normal_of(ring@, v),
                forall|v: int| 0 <= v < n + 4 * w ==> #[trigger] colors@[v] == color_of(n as int, v),
                forall|v: int| 0 <= v < n + 4 * w ==> #[trigger] sources@[v] == source_of(n as int, v),
                forall|q: int| 0 <= q < j ==> #[trigger] normals@[n + 4 * w + q] == normal,
                forall|q: int| 0 <= q < j ==> #[trigger] colors@[n + 4 * w + q] == wall_color(),
                forall|q: int| 0 <= q < j ==> #[trigger] sources@[n + 4 * w + q] == (VertexSource {
                    corner: if q < 2 { w } else { next },
                    top: q % 2 == 1,
                }),
            decreases 4 - j,
        {
            normals.push(normal);
            colors.push(Rgba8 { r: WALL_SHADE, g: WALL_SHADE, b: WALL_SHADE, a: 255 });
            sources.push(VertexSource { corner: if j < 2 { w } else { next }, top: j % 2 == 1 });
            j += 1;
        }
        let q = base + 4 * (w as u32);
        indices.push(q);
        indices.push(q + 2);
        indices.push(q + 1);
        indices.push(q + 1);
        indices.push(q + 2);
        indices.push(q + 3);
        assert forall|v: int|
            #![trigger positions@[v]]
            #![trigger normals@[v]]
            #![trigger colors@[v]]
            #![trigger sources@[v]]
            0 <= v < n + 4 * (w + 1) implies {
            &&& positions@[v] == position_of(ring@, height, v)
            &&& normals@[v] == normal_of(ring@, v)
            &&& colors@[v] == color_of(n as int, v)
            &&& sources@[v] == source_of(n as int, v)
        } by {
            if v >= n + 4 * w {
                let qq = v - n - 4 * w;
                assert((v - n) / 4 == w as int);
                assert((v - n) % 4 == qq);
                assert(sources@[n + 4 * w + qq] == source_of(n as int, v));
                assert(normals@[n + 4 * w + qq] == normal_of(ring@, v));
            }
        }
        assert forall|k: int| 0 <= k < 6 * (w + 1) implies #[trigger] indices@[tris@.len() + k] as int == wall_index(n as int, k) by {
            if k >= 6 * w {
                assert(k / 6 == w as int);
                assert(k % 6 == k - 6 * w);
            }
        }
        w += 1;
    }
    let mesh = BuiltMesh { positions, normals, colors, sources, indices };
    assert forall|k: int| 0 <= k < mesh.indices@.len() implies (#[trigger] mesh.indices@[k]) < mesh.positions@.len() by {
        if k < tris@.len() {
            let t = k / 3 * 3;
            assert(0 <= t && t + 2 < tris@.len());
            assert(mesh.indices@[k] as int == roof_index(tris@, k));
            assert(tris@[t] < n && tris@[t + 1] < n && tris@[t + 2] < n);
        } else {
            let kk = k - tris@.len();
            assert(0 <= kk < 6 * n);
            assert(kk / 6 < n);
            assert(mesh.indices@[tris@.len() + kk] as int == wall_index(n as int, kk));
        }
    }
    Ok(mesh)
}

/// Builds the flat mesh of an area, such as a square or a road drawn as an
/// area: the outline's points at `elevation`, cut by the triangulation
/// `triangulated` of the outline.
pub fn build_area_mesh(
    outline: &Vec<LocalPoint>,
    elevation: i64,
    triangulated: Result<Vec<usize>, earcutr::Error>,
) -> (r: Result<BuiltMesh, GeometryError>)
    requires
        outline@.len() <= MAX_RING_LEN,
    ensures
        match triangulated {
            Err(_) => r == Err::<BuiltMesh, GeometryError>(GeometryError::Triangulation),
            Ok(tris) => if valid_triangulation(tris@, outline@.len() as int) {
                r matches Ok(m) && m.is_area_mesh(outline@, elevation, tris@)
            } else {
                r == Err::<BuiltMesh, GeometryError>(GeometryError::Triangulation)
            },
        },
        r matches Ok(m) ==> m.well_formed(),
{
    let tris = match triangulated {
        Ok(t) => t,
        Err(_) => {
            return Err(GeometryError::Triangulation);
        },
    };
    let n = outline.len();
    let indices = match roof_indices(&tris, n) {
        Some(ix) => ix,
        None => {
            return Err(GeometryError::Triangulation);
        },
    };
    let mut positions: Vec<Vec3i> = Vec::new();
    let mut normals: Vec<Vec3i> = Vec::new();
    let mut colors: Vec<Rgba8> = Vec::new();
    let mut sources: Vec<VertexSource> = Vec::new();
    let mut i: usize = 0;
    while i < n
        invariant
            n == outline@.len(),
            i <= n,
            positions@.len() == i,
            normals@.len() == i,
            colors@.len() == i,
            sources@.len() == i,
            forall|v: int| 0 <= v < i ==> #[trigger] positions@[v] == lift(outline@[v], elevation),
            forall|v: int| 0 <= v < i ==> #[trigger] normals@[v] == up(),
            forall|v: int| 0 <= v < i ==> #[trigger] colors@[v] == roof_color(),
            forall|v: int| 0 <= v < i ==> #[trigger] sources@[v] == (VertexSource { corner: v as usize, top: true }),
        decreases n - i,
    {
        let p = outline[i];
        positions.push(Vec3i { x: p.x, y: elevation, z: p.y });
        normals.push(Vec3i { x: 0, y: 1, z: 0 });
        colors.push(Rgba8 { r: ROOF_SHADE, g: ROOF_SHADE, b: ROOF_SHADE, a: 255 });
        sources.push(VertexSource { corner: i, top: true });
        i += 1;
    }
    let mesh = BuiltMesh { positions, normals, colors, sources, indices };
    assert forall|k: int| 0 <= k < mesh.indices@.len() implies (#[trigger] mesh.indices@[k]) < mesh.positions@.len() by {
        let t = k / 3 * 3;
        assert(0 <= t && t + 2 < tris@.len());
        assert(mesh.indices@[k] as int == roof_index(tris@, k));
        assert(tris@[t] < n && tris@[t + 1] < n && tris@[t + 2] < n);
    }
    Ok(mesh)
}

/// Wall extrusion: a building mesh over a ring of `n` corners holds `n` wall
/// quads, `2n` wall triangles after the roof's, and the normal of every wall
/// vertex is horizontal and perpendicular to the ring edge under that wall.
pub proof fn lemma_wall_extrusion(m: &BuiltMesh, ring: Seq<LocalPoint>, height: i64, tris: Seq<usize>, v: int)
    requires
        m.is_building_mesh(ring, height, tris),
        ring_in_range(ring),
        ring.len() <= v < 5 * ring.len(),
    ensures
        m.positions.len() - ring.len() == 4 * ring.len(),
        (m.indices.len() - tris.len()) / 3 == 2 * ring.len(),
        ({
            let n = ring.len() as int;
            let w = (v - n) / 4;
            let a = ring[w];
            let b = ring[(w + 1) % n];
            &&& m.normals@[v].y == 0
            &&& m.normals@[v].x * (b.x - a.x) + m.normals@[v].z * (b.y - a.y) == 0
        }),
{
    let n = ring.len() as int;
    let w = (v - n) / 4;
    let a = ring[w];
    let b = ring[(w + 1) % n];
    assert(m.normals@[v] == normal_of(ring, v));
    assert(0 <= w < n);
    assert(point_in_range(a) && point_in_range(b));
    let dx = b.x - a.x;
    let dy = b.y - a.y;
    assert((-dy) * dx + dx * dy == 0) by (nonlinear_arith);
}

} // verus!
