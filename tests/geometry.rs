use darkmap::{
    build_area_mesh, build_building_mesh, decorate_building, is_triangulation_of, prepare_ring, roof_indices,
    twice_signed_area, GeometryError, LocalPoint, Rgba8, Tags, Vec3i, VertexSource,
};

fn pt(x: i64, y: i64) -> LocalPoint {
    LocalPoint { x, y }
}

fn square() -> Vec<LocalPoint> {
    vec![pt(0, 0), pt(10_000, 0), pt(10_000, 10_000), pt(0, 10_000)]
}

fn earcut_of(ring: &[LocalPoint]) -> Result<Vec<usize>, earcutr::Error> {
    let flat: Vec<f64> = ring.iter().flat_map(|p| [p.x as f64, p.y as f64]).collect();
    earcutr::earcut(&flat, &[], 2)
}

fn tags(pairs: &[(&str, &str)]) -> Tags {
    Tags(pairs.iter().map(|(k, v)| (k.to_string(), v.to_string())).collect())
}

#[test]
fn triangulation_of_simple_polygon_covers_its_area() {
    // an L-shaped hexagon
    let ring = vec![pt(0, 0), pt(4000, 0), pt(4000, 2000), pt(2000, 2000), pt(2000, 4000), pt(0, 4000)];
    let tris = earcut_of(&ring).unwrap();
    assert_eq!(tris.len(), 3 * (ring.len() - 2));
    assert!(tris.iter().all(|&i| i < ring.len()));
    assert!(is_triangulation_of(&ring, &tris));
    assert_eq!(twice_signed_area(&ring).abs(), 2 * 12_000_000);
}

#[test]
fn triangulation_check_rejects_wrong_area_or_count() {
    let ring = square();
    assert!(is_triangulation_of(&ring, &vec![0, 1, 2, 0, 2, 3]));
    assert!(!is_triangulation_of(&ring, &vec![0, 1, 2, 1, 1, 2]));
    assert!(!is_triangulation_of(&ring, &vec![0, 1, 2]));
    assert!(!is_triangulation_of(&ring, &vec![0, 1, 2, 0, 2, 4]));
}

#[test]
fn shoelace_area_of_square() {
    assert_eq!(twice_signed_area(&square()), 200_000_000);
    let mut cw = square();
    cw.reverse();
    assert_eq!(twice_signed_area(&cw), -200_000_000);
}

#[test]
fn roof_triangles_are_turned() {
    assert_eq!(roof_indices(&vec![0, 1, 2, 2, 3, 0], 4), Some(vec![0, 2, 1, 2, 0, 3]));
    assert_eq!(roof_indices(&vec![0, 1, 4], 4), None);
    assert_eq!(roof_indices(&vec![0, 1], 4), None);
    assert_eq!(roof_indices(&vec![], 4), Some(vec![]));
}

#[test]
fn wall_extrusion_emits_one_quad_per_edge() {
    let ring = square();
    let tris = earcut_of(&ring).unwrap();
    let mesh = build_building_mesh(&ring, 7_000, Ok(tris.clone())).unwrap();
    let n = ring.len();
    assert_eq!(mesh.positions.len(), 5 * n);
    assert_eq!(mesh.normals.len(), 5 * n);
    assert_eq!(mesh.colors.len(), 5 * n);
    assert_eq!(mesh.sources.len(), 5 * n);
    assert_eq!(mesh.indices.len(), tris.len() + 6 * n);
    assert_eq!(mesh.triangle_count(), (n - 2) + 2 * n);
    for w in 0..n {
        let a = ring[w];
        let b = ring[(w + 1) % n];
        for q in 0..4 {
            let normal = mesh.normals[n + 4 * w + q];
            assert_eq!(normal.y, 0);
            assert_eq!(normal.x * (b.x - a.x) + normal.z * (b.y - a.y), 0);
            assert!(normal.x != 0 || normal.z != 0);
        }
    }
    assert!(mesh.indices.iter().all(|&i| (i as usize) < mesh.positions.len()));
}

#[test]
fn building_mesh_layout_of_a_triangle() {
    let ring = vec![pt(0, 0), pt(3000, 0), pt(0, 4000)];
    let mesh = build_building_mesh(&ring, 9_000, Ok(vec![0, 1, 2])).unwrap();
    assert_eq!(&mesh.indices[..3], &[0, 2, 1]);
    assert_eq!(
        &mesh.indices[3..],
        &[3, 5, 4, 4, 5, 6, 7, 9, 8, 8, 9, 10, 11, 13, 12, 12, 13, 14]
    );
    assert_eq!(mesh.positions[1], Vec3i { x: 3000, y: 9_000, z: 0 });
    assert_eq!(mesh.positions[3], Vec3i { x: 0, y: 0, z: 0 });
    assert_eq!(mesh.positions[4], Vec3i { x: 0, y: 9_000, z: 0 });
    assert_eq!(mesh.positions[5], Vec3i { x: 3000, y: 0, z: 0 });
    assert_eq!(mesh.positions[14], Vec3i { x: 0, y: 9_000, z: 0 });
    assert_eq!(mesh.normals[0], Vec3i { x: 0, y: 1, z: 0 });
    assert_eq!(mesh.normals[3], Vec3i { x: 0, y: 0, z: 3000 });
    assert_eq!(mesh.normals[7], Vec3i { x: -4000, y: 0, z: -3000 });
    assert_eq!(mesh.colors[0], Rgba8 { r: 255, g: 255, b: 255, a: 255 });
    assert_eq!(mesh.colors[3], Rgba8 { r: 128, g: 128, b: 128, a: 255 });
    assert_eq!(mesh.sources[2], VertexSource { corner: 2, top: true });
    assert_eq!(mesh.sources[13], VertexSource { corner: 0, top: false });
    assert_eq!(mesh.sources[14], VertexSource { corner: 0, top: true });
}

#[test]
fn geometry_errors() {
    assert_eq!(build_building_mesh(&vec![], 1, Ok(vec![])).err(), Some(GeometryError::EmptyRing));
    assert_eq!(
        build_building_mesh(&vec![pt(0, 0), pt(1, 1)], 1, Ok(vec![])).err(),
        Some(GeometryError::TooFewVertices)
    );
    assert_eq!(
        build_building_mesh(&square(), 1, Err(earcutr::Error::Unknown)).err(),
        Some(GeometryError::Triangulation)
    );
    assert_eq!(
        build_building_mesh(&square(), 1, Ok(vec![0, 1, 7])).err(),
        Some(GeometryError::Triangulation)
    );
}

#[test]
fn ring_is_made_clockwise_and_open() {
    let ccw = vec![pt(0, 0), pt(10, 0), pt(10, 10), pt(0, 10), pt(0, 0)];
    assert_eq!(prepare_ring(&ccw), vec![pt(0, 0), pt(0, 10), pt(10, 10), pt(10, 0)]);
    let cw = vec![pt(0, 0), pt(0, 10), pt(10, 10), pt(10, 0), pt(0, 0)];
    assert_eq!(prepare_ring(&cw), vec![pt(0, 0), pt(0, 10), pt(10, 10), pt(10, 0)]);
    assert_eq!(prepare_ring(&vec![]), vec![]);
}

#[test]
fn decoration_of_low_and_tall_buildings() {
    let ring = square();
    let low = decorate_building(&ring, &tags(&[("height", "5")]), earcut_of(&ring)).unwrap();
    assert_eq!(low.height, 5_000);
    assert_eq!(low.view_distance, Some(1000));
    assert_eq!(low.mesh.positions[0].y, 5_000);
    let tall = decorate_building(&ring, &tags(&[("height", "20 m")]), earcut_of(&ring)).unwrap();
    assert_eq!(tall.height, 20_000);
    assert_eq!(tall.view_distance, None);
    let plain = decorate_building(&ring, &tags(&[]), earcut_of(&ring)).unwrap();
    assert_eq!(plain.height, 10_000);
    assert!(decorate_building(&vec![], &tags(&[]), Ok(vec![])).is_err());
}

#[test]
fn decoration_refuses_a_triangulation_that_misses_area() {
    let ring = square();
    assert_eq!(
        decorate_building(&ring, &tags(&[]), Ok(vec![0, 1, 2, 1, 1, 2])).err(),
        Some(GeometryError::Triangulation)
    );
    assert_eq!(
        decorate_building(&ring, &tags(&[]), Ok(vec![0, 1, 2])).err(),
        Some(GeometryError::Triangulation)
    );
    assert_eq!(
        decorate_building(&ring, &tags(&[]), Err(earcutr::Error::Unknown)).err(),
        Some(GeometryError::Triangulation)
    );
    assert!(decorate_building(&ring, &tags(&[]), Ok(vec![0, 1, 2, 0, 2, 3])).is_ok());
}

#[test]
fn area_mesh_is_flat_and_faces_up() {
    let outline = square();
    let tris = earcut_of(&outline).unwrap();
    let mesh = build_area_mesh(&outline, 15, Ok(tris.clone())).unwrap();
    assert_eq!(mesh.positions.len(), 4);
    assert_eq!(mesh.positions[2], Vec3i { x: 10_000, y: 15, z: 10_000 });
    assert!(mesh.normals.iter().all(|n| *n == Vec3i { x: 0, y: 1, z: 0 }));
    assert_eq!(mesh.indices.len(), tris.len());
    assert_eq!(mesh.indices[1] as usize, tris[2]);
    assert_eq!(mesh.indices[2] as usize, tris[1]);
    assert_eq!(build_area_mesh(&outline, 0, Ok(vec![0, 1, 9])).err(), Some(GeometryError::Triangulation));
    assert_eq!(
        build_area_mesh(&outline, 0, Err(earcutr::Error::Unknown)).err(),
        Some(GeometryError::Triangulation)
    );
}
