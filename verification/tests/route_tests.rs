use route_guide::geo::{Feature, Point, RouteSummary};
use route_guide::index::GeoIndex;
use route_guide::route::{RouteAggregator, RouteError, RouteState};

fn point(latitude: i32, longitude: i32) -> Point {
    Point { latitude, longitude }
}

fn feature(name: &str, latitude: i32, longitude: i32) -> Feature {
    Feature { name: String::from(name), location: point(latitude, longitude) }
}

fn catalog() -> GeoIndex {
    GeoIndex::new(vec![
        feature("first", 10, 10),
        feature("", 20, 20),
        feature("hidden behind the unnamed one", 20, 20),
        feature("third", 30, 30),
    ])
}

#[test]
fn fresh_accumulator_is_empty() {
    let route = RouteAggregator::new(1_000);
    assert_eq!(route.state(), RouteState::Empty);
    assert_eq!(route.previous(), None);
    assert_eq!(route.point_count(), 0);
    assert_eq!(route.feature_count(), 0);
    assert_eq!(route.distance(), 0);
    assert_eq!(route.summary(), None);
}

#[test]
fn route_counts_points_features_and_distance() {
    let index = catalog();
    let mut route = RouteAggregator::new(100);
    let points = [point(10, 10), point(1, 1), point(30, 30), point(20, 20), point(10, 10)];
    let legs = [999, 1_400, 4_100, 1_500, 1_350];
    for (point, leg) in points.iter().zip(legs.iter()) {
        assert_eq!(route.record(&index, *point, *leg), Ok(()));
        assert_eq!(route.state(), RouteState::Accumulating);
        assert_eq!(route.summary(), None);
    }
    assert_eq!(route.previous(), Some(point(10, 10)));
    assert_eq!(route.point_count(), 5);
    assert_eq!(route.feature_count(), 3);
    assert_eq!(route.distance(), 1_400 + 4_100 + 1_500 + 1_350);
    let summary = route.finish(160).unwrap();
    assert_eq!(
        summary,
        RouteSummary { point_count: 5, feature_count: 3, distance: 8_350, elapsed_time: 60 }
    );
    assert_eq!(route.state(), RouteState::Finalized);
    assert_eq!(route.summary(), Some(summary));
}

#[test]
fn first_leg_does_not_count() {
    let index = catalog();
    let mut route = RouteAggregator::new(0);
    assert_eq!(route.record(&index, point(5, 5), u32::MAX), Ok(()));
    assert_eq!(route.distance(), 0);
    assert_eq!(route.previous(), Some(point(5, 5)));
    assert_eq!(route.record(&index, point(6, 6), 7), Ok(()));
    assert_eq!(route.distance(), 7);
}

#[test]
fn route_without_points_sums_to_nothing() {
    let mut route = RouteAggregator::new(50);
    assert_eq!(
        route.finish(50),
        Ok(RouteSummary { point_count: 0, feature_count: 0, distance: 0, elapsed_time: 0 })
    );
    assert_eq!(route.state(), RouteState::Finalized);
}

#[test]
fn open_route_shows_no_summary() {
    let index = catalog();
    let mut route = RouteAggregator::new(0);
    assert_eq!(route.summary(), None);
    for step in 0..100 {
        route.record(&index, point(step, step), 3).unwrap();
        assert_eq!(route.summary(), None);
        assert_ne!(route.state(), RouteState::Finalized);
    }
    assert_eq!(route.point_count(), 100);
    assert_eq!(route.distance(), 99 * 3);
}

#[test]
fn point_at_an_unnamed_first_entry_is_no_feature() {
    let index = catalog();
    let mut route = RouteAggregator::new(0);
    route.record(&index, point(20, 20), 0).unwrap();
    assert_eq!(route.feature_count(), 0);
    route.record(&index, point(30, 30), 0).unwrap();
    assert_eq!(route.feature_count(), 1);
    route.record(&index, point(30, 30), 0).unwrap();
    assert_eq!(route.feature_count(), 2);
    assert_eq!(route.point_count(), 3);
}

#[test]
fn finished_accumulator_refuses_reuse() {
    let index = catalog();
    let mut route = RouteAggregator::new(10);
    route.record(&index, point(10, 10), 0).unwrap();
    let summary = route.finish(12).unwrap();
    assert_eq!(route.record(&index, point(30, 30), 5), Err(RouteError::Finalized));
    assert_eq!(route.finish(99), Err(RouteError::Finalized));
    assert_eq!(route.finish(1), Err(RouteError::Finalized));
    assert_eq!(route.summary(), Some(summary));
    assert_eq!(route.point_count(), 1);
    assert_eq!(summary, RouteSummary { point_count: 1, feature_count: 1, distance: 0, elapsed_time: 2 });
}

#[test]
fn distance_that_does_not_fit_is_refused() {
    let index = catalog();
    let mut route = RouteAggregator::new(0);
    route.record(&index, point(1, 1), 0).unwrap();
    assert_eq!(route.record(&index, point(2, 2), i32::MAX as u32), Ok(()));
    assert_eq!(route.distance(), i32::MAX);
    assert_eq!(route.record(&index, point(3, 3), 1), Err(RouteError::Overflow));
    assert_eq!(route.point_count(), 2);
    assert_eq!(route.previous(), Some(point(2, 2)));
    assert_eq!(route.distance(), i32::MAX);
    assert_eq!(route.record(&index, point(3, 3), 0), Ok(()));
    assert_eq!(route.point_count(), 3);
}

#[test]
fn leg_larger_than_the_summary_holds_is_refused() {
    let index = catalog();
    let mut route = RouteAggregator::new(0);
    route.record(&index, point(1, 1), 0).unwrap();
    assert_eq!(route.record(&index, point(2, 2), i32::MAX as u32 + 1), Err(RouteError::Overflow));
    assert_eq!(route.record(&index, point(2, 2), u32::MAX), Err(RouteError::Overflow));
    assert_eq!(route.distance(), 0);
    assert_eq!(route.point_count(), 1);
}

#[test]
fn end_before_start_is_refused() {
    let mut route = RouteAggregator::new(100);
    assert_eq!(route.finish(99), Err(RouteError::EndsBeforeStart));
    assert_eq!(route.state(), RouteState::Empty);
    assert_eq!(route.summary(), None);
    assert!(route.finish(100).is_ok());
}

#[test]
fn elapsed_time_that_does_not_fit_is_refused() {
    let mut route = RouteAggregator::new(5);
    assert_eq!(route.finish(5 + i32::MAX as u64 + 1), Err(RouteError::Overflow));
    assert_eq!(route.summary(), None);
    let summary = route.finish(5 + i32::MAX as u64).unwrap();
    assert_eq!(summary.elapsed_time, i32::MAX);
}

#[test]
fn elapsed_time_is_counted_from_the_start() {
    let mut route = RouteAggregator::new(u64::MAX - 10);
    assert_eq!(route.finish(u64::MAX).unwrap().elapsed_time, 10);
}
