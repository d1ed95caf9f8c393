use darkmap::{lane_width_of, parse_millis_of, Tags};

fn tags(pairs: &[(&str, &str)]) -> Tags {
    Tags(pairs.iter().map(|(k, v)| (k.to_string(), v.to_string())).collect())
}

fn millis(s: &str) -> Option<i64> {
    parse_millis_of(&s.chars().collect())
}

#[test]
fn height_precedence() {
    assert_eq!(tags(&[("height", "12.5 m")]).building_height(), Some(12_500));
    assert_eq!(tags(&[("height", "12.5 m")]).resolved_height(), 12_500);
    assert_eq!(tags(&[("building:levels", "4")]).building_height(), Some(12_000));
    assert_eq!(tags(&[("building:levels", "4")]).resolved_height(), 12_000);
    assert_eq!(tags(&[]).building_height(), None);
    assert_eq!(tags(&[]).resolved_height(), 10_000);
}

#[test]
fn explicit_height_wins_over_levels() {
    assert_eq!(tags(&[("building:levels", "4"), ("height", "7")]).resolved_height(), 7_000);
    // an unreadable height decides, and falls back to the default
    assert_eq!(tags(&[("height", "tall"), ("building:levels", "4")]).building_height(), None);
    assert_eq!(tags(&[("height", "tall"), ("building:levels", "4")]).resolved_height(), 10_000);
    assert_eq!(tags(&[("height", "   ")]).resolved_height(), 10_000);
    assert_eq!(tags(&[("building:levels", "2.5")]).resolved_height(), 7_500);
    assert_eq!(tags(&[("building:levels", "4 ")]).resolved_height(), 10_000);
}

#[test]
fn decimal_numbers_in_millimetres() {
    assert_eq!(millis("12.5"), Some(12_500));
    assert_eq!(millis("-3.25"), Some(-3_250));
    assert_eq!(millis("+7"), Some(7_000));
    assert_eq!(millis(".5"), Some(500));
    assert_eq!(millis("5."), Some(5_000));
    assert_eq!(millis("12.3456"), Some(12_345));
    assert_eq!(millis("000000000000012"), Some(12_000));
    assert_eq!(millis("1000000000000"), None);
    assert_eq!(millis("999999999999.999"), Some(999_999_999_999_999));
    assert_eq!(millis("."), None);
    assert_eq!(millis(""), None);
    assert_eq!(millis("-"), None);
    assert_eq!(millis("1e3"), None);
    assert_eq!(millis("1.2.3"), None);
    assert_eq!(millis("12m"), None);
}

#[test]
fn leading_word_of_a_height() {
    assert_eq!(tags(&[("height", "  8.75\tmetres")]).building_height(), Some(8_750));
    assert_eq!(tags(&[("height", "8,5")]).building_height(), None);
}

#[test]
fn road_width_rules() {
    assert_eq!(tags(&[("width", "7.5 m")]).road_width(), 7_500);
    assert_eq!(tags(&[("highway", "motorway")]).road_width(), 6_000);
    assert_eq!(tags(&[("highway", "trunk")]).road_width(), 5_000);
    assert_eq!(tags(&[("highway", "secondary")]).road_width(), 3_500);
    assert_eq!(tags(&[("highway", "residential")]).road_width(), 2_750);
    assert_eq!(tags(&[("highway", "service")]).road_width(), 2_500);
    assert_eq!(tags(&[("highway", "footway")]).road_width(), 1_500);
    assert_eq!(tags(&[("width", "wide"), ("highway", "primary")]).road_width(), 4_000);
    assert_eq!(tags(&[]).road_width(), 2_500);
    assert_eq!(lane_width_of(&"tertiary".to_string()), 3_000);
    assert_eq!(lane_width_of(&"track".to_string()), 2_500);
}

#[test]
fn tag_lookup_takes_first_pair() {
    let t = tags(&[("name", "Tower"), ("name", "Other")]);
    assert_eq!(t.name().map(|s| s.as_str()), Some("Tower"));
    assert_eq!(t.get("height"), None);
    assert_eq!(tags(&[]).name(), None);
}
