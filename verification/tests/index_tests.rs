use route_guide::catalog::{load, Location, Record};
use route_guide::geo::{Feature, Point, Rectangle};
use route_guide::index::GeoIndex;

fn point(latitude: i32, longitude: i32) -> Point {
    Point { latitude, longitude }
}

fn feature(name: &str, latitude: i32, longitude: i32) -> Feature {
    Feature { name: String::from(name), location: point(latitude, longitude) }
}

fn sample() -> GeoIndex {
    GeoIndex::new(vec![
        feature("Patriots Path", 407_838_351, -746_143_763),
        feature("101 New Jersey 10", 408_122_808, -743_999_179),
        feature("", 413_628_156, -749_015_468),
        feature("U.S. 6, Shohola", 413_628_156, -749_015_468),
        feature("5 Conners Road", 419_999_544, -740_371_136),
        feature("Second at the path", 407_838_351, -746_143_763),
    ])
}

fn names(features: &[Feature]) -> Vec<String> {
    features.iter().map(|f| f.name.clone()).collect()
}

#[test]
fn query_excludes_the_unnamed_feature() {
    let index = GeoIndex::new(vec![
        feature("A", 400_000_000, -750_000_000),
        feature("", 410_000_000, -740_000_000),
    ]);
    let rect = Rectangle { lo: point(390_000_000, -760_000_000), hi: point(420_000_000, -730_000_000) };
    assert_eq!(index.query(&rect), vec![feature("A", 400_000_000, -750_000_000)]);
}

#[test]
fn query_gives_the_named_features_inside_in_catalog_order() {
    let index = sample();
    let rect = Rectangle { lo: point(400_000_000, -750_000_000), hi: point(420_000_000, -730_000_000) };
    assert_eq!(
        names(&index.query(&rect)),
        vec![
            "Patriots Path",
            "101 New Jersey 10",
            "U.S. 6, Shohola",
            "5 Conners Road",
            "Second at the path",
        ]
    );
}

#[test]
fn query_does_not_depend_on_the_order_of_the_corners() {
    let index = sample();
    let south = 408_000_000;
    let north = 415_000_000;
    let west = -750_000_000;
    let east = -743_000_000;
    let expected = vec!["101 New Jersey 10", "U.S. 6, Shohola"];
    let shapes = [
        Rectangle { lo: point(south, west), hi: point(north, east) },
        Rectangle { lo: point(north, east), hi: point(south, west) },
        Rectangle { lo: point(north, west), hi: point(south, east) },
        Rectangle { lo: point(south, east), hi: point(north, west) },
    ];
    for rect in shapes.iter() {
        assert_eq!(names(&index.query(rect)), expected);
    }
}

#[test]
fn query_counts_the_border() {
    let index = sample();
    let rect = Rectangle { lo: point(408_122_808, -743_999_179), hi: point(408_122_808, -743_999_179) };
    assert_eq!(names(&index.query(&rect)), vec!["101 New Jersey 10"]);
    let beside = Rectangle { lo: point(408_122_809, -743_999_179), hi: point(408_122_810, -743_999_170) };
    assert!(index.query(&beside).is_empty());
}

#[test]
fn query_starts_over_each_time() {
    let index = sample();
    let rect = Rectangle { lo: point(400_000_000, -750_000_000), hi: point(420_000_000, -730_000_000) };
    let first = index.query(&rect);
    let second = index.query(&rect);
    assert_eq!(first, second);
    assert_eq!(first.len(), 5);
}

#[test]
fn query_of_an_empty_catalog_is_empty() {
    let index = GeoIndex::new(Vec::new());
    let rect = Rectangle { lo: point(i32::MIN, i32::MIN), hi: point(i32::MAX, i32::MAX) };
    assert!(index.query(&rect).is_empty());
    assert_eq!(index.len(), 0);
    assert_eq!(index.next_match(&rect, 0), None);
}

#[test]
fn lookup_gives_the_first_feature_at_the_point() {
    let index = sample();
    assert_eq!(
        index.lookup(&point(407_838_351, -746_143_763)),
        feature("Patriots Path", 407_838_351, -746_143_763)
    );
    assert_eq!(
        index.lookup(&point(419_999_544, -740_371_136)),
        feature("5 Conners Road", 419_999_544, -740_371_136)
    );
}

#[test]
fn lookup_of_an_unknown_point_gives_the_unnamed_feature() {
    let index = sample();
    let found = index.lookup(&point(1, 2));
    assert_eq!(found, Feature { name: String::new(), location: point(1, 2) });
    assert!(!found.is_named());
    let near = index.lookup(&point(407_838_351, -746_143_764));
    assert_eq!(near, Feature::unnamed(point(407_838_351, -746_143_764)));
}

#[test]
fn lookup_stops_at_an_unnamed_entry_that_comes_first() {
    let index = sample();
    let found = index.lookup(&point(413_628_156, -749_015_468));
    assert_eq!(found, feature("", 413_628_156, -749_015_468));
    assert!(!found.is_named());
}

#[test]
fn lookup_in_an_empty_catalog() {
    let index = GeoIndex::new(Vec::new());
    assert_eq!(index.lookup(&point(0, 0)), Feature::unnamed(point(0, 0)));
}

#[test]
fn get_gives_each_entry_and_nothing_past_the_end() {
    let index = sample();
    assert_eq!(index.len(), 6);
    assert_eq!(index.get(0), Some(feature("Patriots Path", 407_838_351, -746_143_763)));
    assert_eq!(index.get(2), Some(feature("", 413_628_156, -749_015_468)));
    assert_eq!(index.get(5), Some(feature("Second at the path", 407_838_351, -746_143_763)));
    assert_eq!(index.get(6), None);
    assert_eq!(index.get(usize::MAX), None);
}

#[test]
fn next_match_walks_through_what_query_gives() {
    let index = sample();
    let rect = Rectangle { lo: point(415_000_000, -743_000_000), hi: point(408_000_000, -750_000_000) };
    assert_eq!(index.next_match(&rect, 0), Some(1));
    assert_eq!(index.next_match(&rect, 1), Some(1));
    assert_eq!(index.next_match(&rect, 2), Some(3));
    assert_eq!(index.next_match(&rect, 4), None);
    assert_eq!(index.next_match(&rect, 6), None);
    assert_eq!(index.next_match(&rect, 700), None);

    let mut walked = Vec::new();
    let mut from = 0;
    while let Some(at) = index.next_match(&rect, from) {
        walked.push(index.get(at).unwrap());
        from = at + 1;
    }
    assert_eq!(walked, index.query(&rect));
}

#[test]
fn load_turns_records_into_features_in_order() {
    let records = vec![
        Record {
            location: Location { latitude: 407_838_351, longitude: -746_143_763 },
            name: String::from("Patriots Path, Mendham, NJ 07945, USA"),
        },
        Record { location: Location { latitude: 416_855_156, longitude: -744_420_597 }, name: String::new() },
        Record {
            location: Location { latitude: -5, longitude: 7 },
            name: String::from("Ünïcödé"),
        },
    ];
    let features = load(records);
    assert_eq!(
        features,
        vec![
            feature("Patriots Path, Mendham, NJ 07945, USA", 407_838_351, -746_143_763),
            feature("", 416_855_156, -744_420_597),
            feature("Ünïcödé", -5, 7),
        ]
    );
    assert!(load(Vec::new()).is_empty());
}

#[test]
fn loaded_catalog_answers_lookups() {
    let index = GeoIndex::new(load(vec![Record {
        location: Location { latitude: 12, longitude: -34 },
        name: String::from("somewhere"),
    }]));
    assert_eq!(index.lookup(&point(12, -34)).name, "somewhere");
    assert_eq!(index.lookup(&point(-34, 12)).name, "");
}
