use darkmap::{parse_i32_of, strip_indices, BuildingClass, Tags};

fn tags(pairs: &[(&str, &str)]) -> Tags {
    Tags(pairs.iter().map(|(k, v)| (k.to_string(), v.to_string())).collect())
}

#[test]
fn integers_read_like_rust() {
    assert_eq!(parse_i32_of("-2"), Some(-2));
    assert_eq!(parse_i32_of("+15"), Some(15));
    assert_eq!(parse_i32_of("007"), Some(7));
    assert_eq!(parse_i32_of("2147483647"), Some(i32::MAX));
    assert_eq!(parse_i32_of("-2147483648"), Some(i32::MIN));
    assert_eq!(parse_i32_of("2147483648"), None);
    assert_eq!(parse_i32_of("99999999999999999999"), None);
    assert_eq!(parse_i32_of("-"), None);
    assert_eq!(parse_i32_of(""), None);
    assert_eq!(parse_i32_of("1.5"), None);
    assert_eq!(parse_i32_of(" 1"), None);
    for s in ["0", "-0", "12", "-34", "+5", "x", "3a"] {
        assert_eq!(parse_i32_of(s), s.parse::<i32>().ok());
    }
}

#[test]
fn road_elevation_sums_its_offsets() {
    assert_eq!(tags(&[]).road_elevation(-20_000), 0);
    assert_eq!(tags(&[("layer", "2"), ("highway", "motorway")]).road_elevation(-20_000), 6);
    assert_eq!(tags(&[("layer", "-1"), ("highway", "footway")]).road_elevation(0), 16);
    assert_eq!(tags(&[("layer", "up"), ("highway", "unclassified")]).road_elevation(0), -3);
    assert_eq!(tags(&[("crossing", "zebra"), ("highway", "residential")]).road_elevation(0), -11);
    assert_eq!(tags(&[("crossing", "traffic_signals")]).road_elevation(0), 0);
    assert_eq!(tags(&[("railway", "subway")]).road_elevation(-20_000), -20_000);
    assert_eq!(tags(&[("subway", "yes"), ("layer", "-3")]).road_elevation(-20_000), -20_003);
    assert_eq!(tags(&[("railway", "rail"), ("bridge", "yes"), ("level", "4")]).road_elevation(-20_000), 0);
}

#[test]
fn road_strip_has_two_triangles_per_segment() {
    assert_eq!(strip_indices(0), Vec::<u32>::new());
    assert_eq!(strip_indices(1), Vec::<u32>::new());
    assert_eq!(strip_indices(2), vec![0, 1, 2, 2, 1, 3]);
    assert_eq!(strip_indices(3), vec![0, 1, 2, 2, 1, 3, 2, 3, 4, 4, 3, 5]);
    let many = strip_indices(50);
    assert_eq!(many.len(), 6 * 49);
    assert!(many.iter().all(|&i| i < 100));
}

#[test]
fn building_classes_from_tags() {
    assert_eq!(tags(&[("building", "house")]).building_class(), BuildingClass::Residential);
    assert_eq!(tags(&[("building", "semidetached_house")]).building_class(), BuildingClass::Residential);
    assert_eq!(tags(&[("building", "chapel")]).building_class(), BuildingClass::Religious);
    assert_eq!(tags(&[("building", "farm")]).building_class(), BuildingClass::Agricultural);
    assert_eq!(tags(&[("building", "fire_station")]).building_class(), BuildingClass::Service);
    assert_eq!(tags(&[("building", "train_station")]).building_class(), BuildingClass::Transportation);
    assert_eq!(tags(&[("building", "hotel")]).building_class(), BuildingClass::Hotel);
    assert_eq!(tags(&[("building", "yes")]).building_class(), BuildingClass::Default);
    assert_eq!(tags(&[]).building_class(), BuildingClass::Default);
}

#[test]
fn points_of_interest_in_subways_sit_below() {
    assert_eq!(tags(&[("subway", "yes")]).point_elevation(-20_000), -20_000);
    assert_eq!(tags(&[("amenity", "cafe")]).point_elevation(-20_000), 0);
    assert!(tags(&[("area", "yes")]).is_area());
    assert!(!tags(&[("highway", "pedestrian")]).is_area());
}
