use darkmap::{
    features_from, query_template, render_query, request_body, BoundingBox, Bounds, DecorationQueue, Element,
    FeatureKind, FetchOutcome, GeoPoint, LoadRequest, LoadScheduler, Node, Tags, Way,
};
use geo::{HaversineDestination, HaversineDistance, Point};

fn e7(deg: f64) -> i32 {
    (deg * 1e7).round() as i32
}

fn tags(pairs: &[(&str, &str)]) -> Tags {
    Tags(pairs.iter().map(|(k, v)| (k.to_string(), v.to_string())).collect())
}

fn bounds() -> Bounds {
    Bounds { minlat: 10, minlon: -21, maxlat: 20, maxlon: 0 }
}

#[test]
fn request_body_is_form_encoded() {
    assert_eq!(request_body("a b"), "data=a%20b");
    assert_eq!(request_body("[out:json];"), "data=%5Bout%3Ajson%5D%3B");
    assert_eq!(request_body("A-z._~09"), "data=A-z._~09");
    assert_eq!(request_body("é"), "data=%C3%A9");
    assert_eq!(request_body(""), "data=");
}

#[test]
fn bounding_box_text() {
    let b = BoundingBox { south: -5_000_000, west: -1_234_567, north: 355_000_000, east: 1_397_713_717 };
    assert_eq!(b.to_query_text(), "-0.5,-0.1234567,35.5,139.7713717");
    let z = BoundingBox { south: 0, west: 10_000_000, north: -10, east: 1_800_000_000 };
    assert_eq!(z.to_query_text(), "0,1,-0.000001,180");
}

#[test]
fn bounding_box_of_a_radius_around_the_origin() {
    let origin = Point::new(0.0_f64, 0.0);
    let radius = 1000.0;
    let corner = |bearing: f64| {
        let p = origin.haversine_destination(bearing, radius);
        GeoPoint::new(e7(p.x()), e7(p.y()))
    };
    let req = LoadRequest::new(GeoPoint::new(0, 0), 1000);
    assert_eq!(req.radius, 1000);
    let b = BoundingBox::from_corners(corner(0.0), corner(90.0), corner(180.0), corner(270.0));
    assert!(b.south < 0 && 0 < b.north);
    assert!(b.west < 0 && 0 < b.east);
    assert!(b.contains(req.center));
    let north = Point::new(0.0, b.north as f64 / 1e7);
    let d = origin.haversine_distance(&north);
    assert!((d - 1000.0).abs() < 1.0, "{}", d);
    let text = b.to_query_text();
    let parts: Vec<f64> = text.split(',').map(|s| s.parse().unwrap()).collect();
    assert_eq!(parts.len(), 4);
    assert!(parts[0] < 0.0 && parts[1] < 0.0 && parts[2] > 0.0 && parts[3] > 0.0);
    assert!((parts[2] * 1e7 - b.north as f64).abs() < 0.5);
}

#[test]
fn query_template_gets_the_box() {
    let b = BoundingBox { south: -5_000_000, west: 0, north: 5_000_000, east: 15_000_000 };
    assert_eq!(
        render_query(FeatureKind::Building, &b),
        Ok("[out:json][timeout:25];(way[\"building\"](-0.5,0,0.5,1.5););out geom;".to_string())
    );
    assert_eq!(
        render_query(FeatureKind::Road, &b),
        Ok("[out:json][timeout:25];(way[\"highway\"](-0.5,0,0.5,1.5););out geom;".to_string())
    );
    let poi = render_query(FeatureKind::PointOfInterest, &b).unwrap();
    assert!(poi.contains("(-0.5,0,0.5,1.5)"));
    assert!(query_template(FeatureKind::PointOfInterest).contains("{{bbox}}"));
}

#[test]
fn scheduler_failed_fetch_spawns_nothing() {
    let mut s = LoadScheduler::new(FeatureKind::Building);
    let req = LoadRequest::new(GeoPoint::new(1, 2), 500);
    let id = s.submit(req);
    assert_eq!(id, 0);
    assert_eq!(s.start_loading(), vec![(0, req)]);
    assert!(s.is_in_flight(0));
    assert_eq!(s.finish(0, FetchOutcome::Pending), Vec::<u64>::new());
    assert!(s.is_in_flight(0));
    assert_eq!(s.finish(0, FetchOutcome::Failed), Vec::<u64>::new());
    assert!(!s.is_in_flight(0));
    assert_eq!(s.next_entity_id(), 1);
    assert_eq!(s.finish(0, FetchOutcome::Loaded(4)), Vec::<u64>::new());
}

#[test]
fn scheduler_success_spawns_each_record() {
    let mut s = LoadScheduler::new(FeatureKind::Road);
    assert_eq!(s.kind(), FeatureKind::Road);
    let a = s.submit(LoadRequest::new(GeoPoint::new(0, 0), 100));
    let b = s.submit(LoadRequest::new(GeoPoint::new(5, 5), 100));
    assert_eq!(s.start_loading().len(), 2);
    assert_eq!(s.start_loading(), vec![]);
    assert_eq!(s.finish(b, FetchOutcome::Loaded(3)), vec![2, 3, 4]);
    assert!(s.is_in_flight(a));
    assert_eq!(s.finish(a, FetchOutcome::Loaded(0)), Vec::<u64>::new());
    assert!(!s.is_in_flight(a));
    assert_eq!(s.submit(LoadRequest::new(GeoPoint::new(0, 0), 1)), 5);
}

#[test]
fn decoration_drains_in_ceil_ticks() {
    let mut q = DecorationQueue::new();
    for id in 0..10u64 {
        assert!(q.mark(id));
    }
    assert!(!q.mark(3));
    let mut seen = Vec::new();
    let mut ticks = 0;
    while q.len() > 0 {
        let batch = q.tick(3);
        assert!(batch.len() <= 3);
        seen.extend(batch);
        ticks += 1;
    }
    assert_eq!(ticks, 4);
    assert_eq!(seen, (0..10).collect::<Vec<u64>>());
    assert_eq!(q.tick(3), Vec::<u64>::new());
    assert!(!q.mark(9));
    assert!(q.mark(10));
}

fn way(nodes: Vec<i64>, geometry: Vec<GeoPoint>, t: Tags) -> Way {
    Way { id: 1, bounds: bounds(), nodes, geometry, tags: t }
}

#[test]
fn ways_open_and_closed() {
    let g = vec![GeoPoint::new(0, 0), GeoPoint::new(1, 0), GeoPoint::new(1, 1)];
    let closed = way(vec![7, 8, 9, 7], g.clone(), tags(&[]));
    assert!(closed.is_closed());
    let mut ring = g.clone();
    ring.push(GeoPoint::new(0, 0));
    assert_eq!(closed.polygon(), Some(ring));
    let open = way(vec![7, 8], g.clone(), tags(&[]));
    assert!(!open.is_closed());
    assert_eq!(open.polygon(), None);
    assert_eq!(open.multiline(), Some(g.clone()));
    assert_eq!(way(vec![7], g.clone(), tags(&[])).multiline(), None);
    assert!(way(vec![], vec![], tags(&[])).is_closed());
}

#[test]
fn bounds_corners_and_centre() {
    let b = bounds();
    assert_eq!(b.center(), GeoPoint::new(-11, 15));
    assert_eq!(b.north_west(), GeoPoint::new(-21, 20));
    assert_eq!(b.south_east(), GeoPoint::new(0, 10));
    assert_eq!((b.north(), b.east(), b.south(), b.west()), (20, 0, 10, -21));
}

fn elements() -> Vec<Element> {
    let g = vec![GeoPoint::new(0, 0), GeoPoint::new(1, 0), GeoPoint::new(1, 1)];
    vec![
        Element::Way(way(vec![1, 2, 3, 1], g.clone(), tags(&[("building", "yes")]))),
        Element::Node(Node { id: 5, point: GeoPoint::new(3, 4), tags: tags(&[("name", "Cafe")]) }),
        Element::Way(way(vec![1, 2], g.clone(), tags(&[("highway", "primary")]))),
    ]
}

#[test]
fn features_of_each_kind() {
    let buildings = features_from(FeatureKind::Building, elements());
    assert_eq!(buildings.len(), 1);
    assert_eq!(buildings[0].geometry.len(), 4);
    assert_eq!(buildings[0].position, GeoPoint::new(-11, 15));
    assert_eq!(buildings[0].tags.get("building").map(|s| s.as_str()), Some("yes"));
    let roads = features_from(FeatureKind::Road, elements());
    assert_eq!(roads.len(), 2);
    assert_eq!(roads[1].geometry.len(), 3);
    let pois = features_from(FeatureKind::PointOfInterest, elements());
    assert_eq!(pois.len(), 1);
    assert_eq!(pois[0].position, GeoPoint::new(3, 4));
    assert_eq!(pois[0].geometry, vec![GeoPoint::new(3, 4)]);
}
