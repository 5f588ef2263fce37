use route_guide::geo::{Feature, Point, Rectangle, RouteNote, RouteSummary, MAX_LATITUDE, MAX_LONGITUDE};

fn point(latitude: i32, longitude: i32) -> Point {
    Point { latitude, longitude }
}

#[test]
fn point_on_the_globe_is_built() {
    assert_eq!(Point::new(409_146_138, -746_188_906), Some(point(409_146_138, -746_188_906)));
    assert_eq!(Point::new(0, 0), Some(point(0, 0)));
}

#[test]
fn point_bounds_are_inclusive() {
    assert_eq!(MAX_LATITUDE, 900_000_000);
    assert_eq!(MAX_LONGITUDE, 1_800_000_000);
    assert!(Point::new(900_000_000, 1_800_000_000).is_some());
    assert!(Point::new(-900_000_000, -1_800_000_000).is_some());
    assert!(point(900_000_000, -1_800_000_000).is_in_bounds());
}

#[test]
fn point_off_the_globe_is_refused() {
    assert_eq!(Point::new(900_000_001, 0), None);
    assert_eq!(Point::new(-900_000_001, 0), None);
    assert_eq!(Point::new(0, 1_800_000_001), None);
    assert_eq!(Point::new(0, -1_800_000_001), None);
    assert_eq!(Point::new(i32::MAX, i32::MIN), None);
    assert!(!point(0, i32::MAX).is_in_bounds());
}

#[test]
fn rectangle_contains_its_border_and_inside() {
    let rect = Rectangle { lo: point(10, 20), hi: point(30, 40) };
    assert!(rect.contains(&point(10, 20)));
    assert!(rect.contains(&point(30, 40)));
    assert!(rect.contains(&point(10, 40)));
    assert!(rect.contains(&point(20, 30)));
    assert!(!rect.contains(&point(9, 30)));
    assert!(!rect.contains(&point(31, 30)));
    assert!(!rect.contains(&point(20, 19)));
    assert!(!rect.contains(&point(20, 41)));
}

#[test]
fn rectangle_corners_may_come_in_any_order() {
    let inside = point(20, -30);
    let outside = point(20, -50);
    let shapes = [
        Rectangle { lo: point(10, -40), hi: point(30, -20) },
        Rectangle { lo: point(30, -20), hi: point(10, -40) },
        Rectangle { lo: point(30, -40), hi: point(10, -20) },
        Rectangle { lo: point(10, -20), hi: point(30, -40) },
    ];
    for rect in shapes.iter() {
        assert!(rect.contains(&inside));
        assert!(!rect.contains(&outside));
    }
}

#[test]
fn rectangle_normalize_orders_each_axis() {
    let expected = Rectangle { lo: point(10, -40), hi: point(30, -20) };
    assert_eq!(Rectangle { lo: point(30, -20), hi: point(10, -40) }.normalize(), expected);
    assert_eq!(Rectangle { lo: point(30, -40), hi: point(10, -20) }.normalize(), expected);
    assert_eq!(Rectangle { lo: point(10, -20), hi: point(30, -40) }.normalize(), expected);
    assert_eq!(expected.normalize(), expected);
}

#[test]
fn rectangle_of_one_point_contains_that_point_only() {
    let rect = Rectangle { lo: point(5, 5), hi: point(5, 5) };
    assert!(rect.contains(&point(5, 5)));
    assert!(!rect.contains(&point(5, 6)));
    assert!(!rect.contains(&point(4, 5)));
}

#[test]
fn rectangle_at_the_ends_of_the_range() {
    let rect = Rectangle { lo: point(i32::MAX, i32::MIN), hi: point(i32::MIN, i32::MAX) };
    assert!(rect.contains(&point(0, 0)));
    assert!(rect.contains(&point(i32::MIN, i32::MAX)));
    assert_eq!(
        rect.normalize(),
        Rectangle { lo: point(i32::MIN, i32::MIN), hi: point(i32::MAX, i32::MAX) }
    );
}

#[test]
fn feature_knows_whether_it_is_named() {
    let named = Feature::new(String::from("Berkshire Valley"), point(1, 2));
    assert!(named.is_named());
    assert_eq!(named.name, "Berkshire Valley");
    assert_eq!(named.location, point(1, 2));
    let blank = Feature::new(String::new(), point(1, 2));
    assert!(!blank.is_named());
    let nothing = Feature::unnamed(point(3, 4));
    assert!(!nothing.is_named());
    assert_eq!(nothing, Feature { name: String::new(), location: point(3, 4) });
}

#[test]
fn feature_clone_is_equal() {
    let feature = Feature::new(String::from("Ålesund \u{1F30D}"), point(-7, 9));
    let copy = feature.clone();
    assert_eq!(copy, feature);
    assert_eq!(copy.name, "Ålesund \u{1F30D}");
}

#[test]
fn note_keeps_its_parts() {
    let note = RouteNote::new(point(4, 5), String::from("hello"));
    assert_eq!(note.location, point(4, 5));
    assert_eq!(note.message, "hello");
    assert_eq!(note.clone(), note);
}

#[test]
fn summary_is_a_plain_value() {
    let summary = RouteSummary { point_count: 3, feature_count: 1, distance: 250, elapsed_time: 9 };
    let copy = summary;
    assert_eq!(copy, summary);
    assert_eq!(copy.distance, 250);
}
