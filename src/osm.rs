use vstd::prelude::*;
use crate::coords::{midpoint, Bounds, GeoPoint};
use crate::tags::Tags;

verus! {

/// Status fields that the query service sends with each response.
pub struct Osm3s {
    pub timestamp_osm_base: Option<String>,
    pub timestamp_areas_base: Option<String>,
    pub timestamp_osm_max: Option<String>,
    pub timestamp_areas_max: Option<String>,
    pub api_status: Option<String>,
    pub copyright: Option<String>,
}

/// A point element.
pub struct Node {
    pub id: i64,
    pub point: GeoPoint,
    pub tags: Tags,
}

/// A line or closed ring of nodes, with the coordinates of each node.
pub struct Way {
    pub id: i64,
    pub bounds: Bounds,
    pub nodes: Vec<i64>,
    pub geometry: Vec<GeoPoint>,
    pub tags: Tags,
}

/// A group of elements.
pub struct Relation {
    pub id: i64,
    pub bounds: Option<Bounds>,
    pub members: Vec<Element>,
    pub tags: Tags,
}

/// One element of a response.
pub enum Element {
    Node(Node),
    Way(Way),
    Relation(Relation),
}

/// A decoded response of the query service.
pub struct ApiResponse {
    pub generator: String,
    pub osm3s: Osm3s,
    pub elements: Vec<Element>,
}

/// The kinds of feature that are loaded, each by its own query.
#[derive(Clone, Copy, Debug, PartialEq, Eq, Structural)]
pub enum FeatureKind {
    Building,
    Road,
    PointOfInterest,
}

/// A feature record: its tags, its geometry in geographic coordinates (the
/// closed exterior of a building, the line of a road, the point of a point of
/// interest) and the position it is placed at.
pub struct Feature {
    pub tags: Tags,
    pub geometry: Vec<GeoPoint>,
    pub position: GeoPoint,
}

impl View for Feature {
    type V = (Seq<(String, String)>, Seq<GeoPoint>, GeoPoint);

    open spec fn view(&self) -> Self::V {
        (self.tags.0@, self.geometry@, self.position)
    }
}

/// A way is closed when its first and last node are the same one (an empty
/// way counts as closed).
pub open spec fn is_closed_spec(nodes: Seq<i64>) -> bool {
    nodes.len() == 0 || nodes[0] == nodes.last()
}

/// A line closed by repeating its first point at the end, unless it already
/// ends where it starts.
pub open spec fn closed_line(g: Seq<GeoPoint>) -> Seq<GeoPoint> {
    if g.len() == 0 || g[0] == g.last() {
        g
    } else {
        g.push(g[0])
    }
}

pub open spec fn center_spec(b: Bounds) -> GeoPoint {
    GeoPoint {
        lon: midpoint(b.minlon as int, b.maxlon as int) as i32,
        lat: midpoint(b.minlat as int, b.maxlat as int) as i32,
    }
}

/// The record that an element gives for a kind of feature, if any: closed
/// ways for buildings, all ways for roads, nodes for points of interest.
pub open spec fn feature_of(kind: FeatureKind, e: Element) -> Option<(Seq<(String, String)>, Seq<GeoPoint>, GeoPoint)> {
    match (kind, e) {
        (FeatureKind::Building, Element::Way(w)) => if is_closed_spec(w.nodes@) {
            Some((w.tags.0@, closed_line(w.geometry@), center_spec(w.bounds)))
        } else {
            None
        },
        (FeatureKind::Road, Element::Way(w)) => Some((w.tags.0@, w.geometry@, center_spec(w.bounds))),
        (FeatureKind::PointOfInterest, Element::Node(n)) => Some((n.tags.0@, seq![n.point], n.point)),
        _ => None,
    }
}

/// The records of a list of elements, in order.
pub open spec fn features_of(kind: FeatureKind, es: Seq<Element>) -> Seq<(Seq<(String, String)>, Seq<GeoPoint>, GeoPoint)>
    decreases es.len(),
{
    if es.len() == 0 {
        Seq::empty()
    } else {
        match feature_of(kind, es.last()) {
            Some(f) => features_of(kind, es.drop_last()).push(f),
            None => features_of(kind, es.drop_last()),
        }
    }
}

fn clone_points(g: &Vec<GeoPoint>) -> (r: Vec<GeoPoint>)
    ensures
        r@ == g@,
{
    let mut r: Vec<GeoPoint> = Vec::new();
    let mut i: usize = 0;
    while i < g.len()
        invariant
            i <= g@.len(),
            r@ == g@.subrange(0, i as int),
        decreases g.len() - i,
    {
        r.push(g[i]);
        i += 1;
        assert(r@ =~= g@.subrange(0, i as int));
    }
    assert(r@ =~= g@);
    r
}

impl Way {
    /// Whether the way ends at the node it starts from.
    pub fn is_closed(&self) -> (r: bool)
        ensures
            r == is_closed_spec(self.nodes@),
    {
        let n = self.nodes.len();
        n == 0 || self.nodes[0] == self.nodes[n - 1]
    }

    /// The closed exterior of the area that a closed way bounds.
    pub fn polygon(&self) -> (r: Option<Vec<GeoPoint>>)
        ensures
            is_closed_spec(self.nodes@) ==> (r matches Some(g) && g@ == closed_line(self.geometry@)),
            !is_closed_spec(self.nodes@) ==> r is None,
    {
        if self.is_closed() {
            let mut g = clone_points(&self.geometry);
            let n = g.len();
            if n > 0 && g[0] != g[n - 1] {
                let first = g[0];
                g.push(first);
            }
            Some(g)
        } else {
            None
        }
    }

    /// The line of a way of at least two nodes.
    pub fn multiline(&self) -> (r: Option<Vec<GeoPoint>>)
        ensures
            self.nodes@.len() > 1 ==> (r matches Some(g) && g@ == self.geometry@),
            self.nodes@.len() <= 1 ==> r is None,
    {
        if self.nodes.len() > 1 {
            Some(clone_points(&self.geometry))
        } else {
            None
        }
    }
}

/// The record that one element gives for a kind of feature.
pub fn feature_from(kind: FeatureKind, e: Element) -> (r: Option<Feature>)
    ensures
        match feature_of(kind, e) {
            Some(f) => r matches Some(x) && x@ == f,
            None => r is None,
        },
{
    match (kind, e) {
        (FeatureKind::Building, Element::Way(w)) => match w.polygon() {
            Some(g) => {
                let position = w.bounds.center();
                Some(Feature { tags: w.tags, geometry: g, position })
            },
            None => None,
        },
        (FeatureKind::Road, Element::Way(w)) => {
            let position = w.bounds.center();
            Some(Feature { tags: w.tags, geometry: w.geometry, position })
        },
        (FeatureKind::PointOfInterest, Element::Node(n)) => {
            let mut g: Vec<GeoPoint> = Vec::new();
            g.push(n.point);
            proof {
                assert(g@ =~= seq![n.point]);
            }
            Some(Feature { tags: n.tags, geometry: g, position: n.point })
        },
        _ => None,
    }
}

/// The feature records of a response's elements, for one kind of feature,
/// in the order of the elements.
pub fn features_from(kind: FeatureKind, elements: Vec<Element>) -> (r: Vec<Feature>)
    ensures
        r@.len() == features_of(kind, elements@).len(),
        forall|i: int| 0 <= i < r@.len() ==> #[trigger] r@[i]@ == features_of(kind, elements@)[i],
{
    let ghost all = elements@;
    let mut rest = elements;
    let mut out: Vec<Feature> = Vec::new();
    let mut k: usize = 0;
    let total = rest.len();
    while rest.len() > 0
        invariant
            total == all.len(),
            k + rest@.len() == total,
            rest@ == all.subrange(k as int, total as int),
            out@.len() == features_of(kind, all.subrange(0, k as int)).len(),
            forall|i: int| 0 <= i < out@.len() ==> #[trigger] out@[i]@ == features_of(kind, all.subrange(0, k as int))[i],
        decreases rest.len(),
    {
        let e = rest.remove(0);
        assert(e == all[k as int]);
        assert(all.subrange(0, k + 1).drop_last() =~= all.subrange(0, k as int));
        assert(all.subrange(0, k + 1).last() == all[k as int]);
        match feature_from(kind, e) {
            Some(f) => {
                out.push(f);
            },
            None => {},
        }
        k += 1;
        assert(rest@ =~= all.subrange(k as int, total as int));
    }
    assert(all.subrange(0, total as int) =~= all);
    out
}

} // verus!
