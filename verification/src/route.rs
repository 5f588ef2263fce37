//! The accumulator of one recorded route: it takes the points of the route
//! one by one and, when the route ends, gives the summary of what it saw.

use vstd::prelude::*;
use crate::geo::{FeatureView, Point, RouteSummary};
use crate::index::{first_at, lemma_first_at_is_unique, lemma_lookup_gives_first, lookup_in, GeoIndex};

verus! {

/// Where an accumulator stands in its life.
#[derive(Clone, Copy, Debug, PartialEq, Eq, Structural)]
pub enum RouteState {
    /// No point has been taken yet.
    Empty,
    /// At least one point has been taken and the route is still open.
    Accumulating,
    /// The route has ended and its summary is known.
    Finalized,
}

/// Why an accumulator refused a step.
#[derive(Clone, Copy, Debug, PartialEq, Eq, Structural)]
pub enum RouteError {
    /// The route has already ended; an accumulator serves one route only.
    Finalized,
    /// A total of the route would no longer fit in the summary.
    Overflow,
    /// The route would end before it started.
    EndsBeforeStart,
}

/// The largest value that a field of the summary holds.
pub open spec fn summary_limit() -> int {
    i32::MAX as int
}

/// A named feature of the catalog is what lies at the point.
pub open spec fn named_at(catalog: Seq<FeatureView>, point: Point) -> bool {
    lookup_in(catalog, point).named()
}

/// Some feature of the catalog that lies at the point carries a name.
pub open spec fn names_some_feature(catalog: Seq<FeatureView>, point: Point) -> bool {
    exists|at: int| 0 <= at < catalog.len() && (#[trigger] catalog[at]).location == point && catalog[at].named()
}

/// The number of points at which a named feature of the catalog lies.
pub open spec fn named_points(catalog: Seq<FeatureView>, points: Seq<Point>) -> int {
    points.filter(|point: Point| named_at(catalog, point)).len() as int
}

/// The length of a route under a distance between two points: the sum of
/// the distances from each point to the next.
pub open spec fn route_length(points: Seq<Point>, metric: spec_fn(Point, Point) -> int) -> int
    decreases points.len(),
{
    if points.len() <= 1 {
        0
    } else {
        route_length(points.drop_last(), metric) + metric(
            points[points.len() - 2],
            points[points.len() - 1],
        )
    }
}

/// The legs are the distances between consecutive points: the leg that
/// comes with a point is the distance from the point before it.
pub open spec fn legs_follow(
    points: Seq<Point>,
    legs: Seq<int>,
    metric: spec_fn(Point, Point) -> int,
) -> bool {
    &&& legs.len() == points.len()
    &&& forall|k: int| 1 <= k < points.len() ==> #[trigger] legs[k] == metric(points[k - 1], points[k])
}

/// What an accumulator is in contracts.
pub struct RouteModel {
    /// When the route started, in seconds.
    pub started: int,
    /// The point taken last, if any was.
    pub previous: Option<Point>,
    /// How many points were taken.
    pub point_count: int,
    /// At how many of them a named feature lies.
    pub feature_count: int,
    /// The distance covered, in metres.
    pub distance: int,
    /// The summary, once the route has ended.
    pub summary: Option<RouteSummary>,
}

impl RouteModel {
    /// The accumulator of a route that starts at the given second.
    pub open spec fn fresh(started: int) -> RouteModel {
        RouteModel {
            started,
            previous: None,
            point_count: 0,
            feature_count: 0,
            distance: 0,
            summary: None,
        }
    }

    /// Where the accumulator stands in its life.
    pub open spec fn state(self) -> RouteState {
        if self.summary is Some {
            RouteState::Finalized
        } else if self.point_count == 0 {
            RouteState::Empty
        } else {
            RouteState::Accumulating
        }
    }

    /// The totals fit in a summary.
    pub open spec fn fits(self) -> bool {
        &&& self.point_count <= summary_limit()
        &&& self.feature_count <= summary_limit()
        &&& self.distance <= summary_limit()
    }

    /// The accumulator after one more point. `leg` is the distance in metres
    /// from the point before; it counts only where there is such a point.
    pub open spec fn step(self, catalog: Seq<FeatureView>, point: Point, leg: int) -> RouteModel {
        RouteModel {
            started: self.started,
            previous: Some(point),
            point_count: self.point_count + 1,
            feature_count: self.feature_count + if named_at(catalog, point) {
                1int
            } else {
                0int
            },
            distance: self.distance + if self.previous is Some {
                leg
            } else {
                0int
            },
            summary: self.summary,
        }
    }

    /// Why one more point is refused, if it is.
    pub open spec fn step_refusal(self, catalog: Seq<FeatureView>, point: Point, leg: int) -> Option<
        RouteError,
    > {
        if self.summary is Some {
            Some(RouteError::Finalized)
        } else if !self.step(catalog, point, leg).fits() {
            Some(RouteError::Overflow)
        } else {
            None
        }
    }

    /// The accumulator after a sequence of points, each with its leg.
    pub open spec fn feed(self, catalog: Seq<FeatureView>, points: Seq<Point>, legs: Seq<int>) -> RouteModel
        decreases points.len(),
    {
        if points.len() == 0 {
            self
        } else {
            self.feed(catalog, points.drop_last(), legs.drop_last()).step(
                catalog,
                points.last(),
                legs.last(),
            )
        }
    }

    /// The summary of a route that ends at the given second.
    pub open spec fn summary_at(self, now: int) -> RouteSummary {
        RouteSummary {
            point_count: self.point_count as i32,
            feature_count: self.feature_count as i32,
            distance: self.distance as i32,
            elapsed_time: (now - self.started) as i32,
        }
    }

    /// Why the end of the route is refused, if it is.
    pub open spec fn finish_refusal(self, now: int) -> Option<RouteError> {
        if self.summary is Some {
            Some(RouteError::Finalized)
        } else if now < self.started {
            Some(RouteError::EndsBeforeStart)
        } else if now - self.started > summary_limit() {
            Some(RouteError::Overflow)
        } else {
            None
        }
    }

    /// The accumulator after the route has ended at the given second.
    pub open spec fn finished(self, now: int) -> RouteModel {
        RouteModel {
            started: self.started,
            previous: self.previous,
            point_count: self.point_count,
            feature_count: self.feature_count,
            distance: self.distance,
            summary: Some(self.summary_at(now)),
        }
    }
}

/// A point counts as a feature exactly where the first feature of the
/// catalog at that point carries a name. Then some feature at that point
/// carries a name; and where every feature at the point carries one, the
/// two say the same.
pub proof fn lemma_named_at_is_decided_by_first(catalog: Seq<FeatureView>, point: Point)
    ensures
        named_at(catalog, point) <==> exists|at: int| first_at(catalog, point, at) && catalog[at].named(),
        named_at(catalog, point) ==> names_some_feature(catalog, point),
        (forall|k: int| 0 <= k < catalog.len() && (#[trigger] catalog[k]).location == point ==> catalog[k].named())
            ==> (named_at(catalog, point) <==> names_some_feature(catalog, point)),
{
    if exists|at: int| first_at(catalog, point, at) {
        let at = choose|at: int| first_at(catalog, point, at);
        lemma_lookup_gives_first(catalog, point, at);
        assert forall|other: int| first_at(catalog, point, other) implies other == at by {
            lemma_first_at_is_unique(catalog, point, at, other);
        }
    }
    if names_some_feature(catalog, point) {
        let some = choose|k: int| 0 <= k < catalog.len() && (#[trigger] catalog[k]).location == point
            && catalog[k].named();
        lemma_some_feature_is_first(catalog, point, some);
    }
}

/// Where a feature lies at a point, some feature is the first at that point.
proof fn lemma_some_feature_is_first(catalog: Seq<FeatureView>, point: Point, at: int)
    requires
        0 <= at < catalog.len(),
        catalog[at].location == point,
    ensures
        exists|first: int| first_at(catalog, point, first) && first <= at,
    decreases at,
{
    if exists|k: int| 0 <= k < at && (#[trigger] catalog[k]).location == point {
        let k = choose|k: int| 0 <= k < at && (#[trigger] catalog[k]).location == point;
        lemma_some_feature_is_first(catalog, point, k);
    } else {
        assert(first_at(catalog, point, at));
    }
}

/// Feeding a sequence of points to a fresh accumulator counts every point,
/// counts those at which a named feature of the catalog lies, and, where
/// each leg is the distance from the point before, adds up the distances
/// between consecutive points in the order in which they came. The point
/// taken last is remembered, and no summary exists yet.
pub proof fn lemma_route_totals(
    started: int,
    catalog: Seq<FeatureView>,
    points: Seq<Point>,
    legs: Seq<int>,
    metric: spec_fn(Point, Point) -> int,
)
    requires
        legs_follow(points, legs, metric),
    ensures
        ({
            let route = RouteModel::fresh(started).feed(catalog, points, legs);
            &&& route.started == started
            &&& route.point_count == points.len()
            &&& route.feature_count == named_points(catalog, points)
            &&& route.distance == route_length(points, metric)
            &&& route.previous == if points.len() == 0 {
                None
            } else {
                Some(points.last())
            }
            &&& route.summary is None
        }),
    decreases points.len(),
{
    reveal(Seq::filter);
    if points.len() > 0 {
        let earlier = points.drop_last();
        assert(legs_follow(earlier, legs.drop_last(), metric)) by {
            assert forall|k: int| 1 <= k < earlier.len() implies #[trigger] legs.drop_last()[k]
                == metric(earlier[k - 1], earlier[k]) by {
                assert(legs.drop_last()[k] == legs[k]);
            }
        }
        lemma_route_totals(started, catalog, earlier, legs.drop_last(), metric);
        if points.len() >= 2 {
            assert(earlier.last() == points[points.len() - 2]);
            assert(legs.last() == legs[points.len() - 1]);
        }
    }
}

/// Ending the route of a fresh accumulator that was fed a sequence of points
/// gives a summary with the number of points, the number of those at which a
/// named feature lies, the sum of the distances between consecutive points,
/// and the seconds from start to end, provided that these four fit in the
/// summary and that no distance is negative.
pub proof fn lemma_summary_reports_totals(
    started: int,
    now: int,
    catalog: Seq<FeatureView>,
    points: Seq<Point>,
    legs: Seq<int>,
    metric: spec_fn(Point, Point) -> int,
)
    requires
        legs_follow(points, legs, metric),
        forall|a: Point, b: Point| 0 <= #[trigger] metric(a, b),
        points.len() <= summary_limit(),
        route_length(points, metric) <= summary_limit(),
        started <= now <= started + summary_limit(),
    ensures
        ({
            let route = RouteModel::fresh(started).feed(catalog, points, legs);
            let summary = route.summary_at(now);
            &&& route.finish_refusal(now) is None
            &&& route.finished(now).summary == Some(summary)
            &&& route.finished(now).state() == RouteState::Finalized
            &&& summary.point_count == points.len()
            &&& summary.feature_count == named_points(catalog, points)
            &&& summary.distance == route_length(points, metric)
            &&& summary.elapsed_time == now - started
        }),
{
    lemma_route_totals(started, catalog, points, legs, metric);
    lemma_route_length_is_not_negative(points, metric);
    points.lemma_filter_len(|point: Point| named_at(catalog, point));
}

/// A route is at least zero metres long where no distance is negative.
pub proof fn lemma_route_length_is_not_negative(
    points: Seq<Point>,
    metric: spec_fn(Point, Point) -> int,
)
    requires
        forall|a: Point, b: Point| 0 <= #[trigger] metric(a, b),
    ensures
        0 <= route_length(points, metric),
    decreases points.len(),
{
    if points.len() > 1 {
        lemma_route_length_is_not_negative(points.drop_last(), metric);
    }
}

/// A route whose totals fit in the summary is taken whole: no point of it
/// is refused by an accumulator that started fresh, where no distance is
/// negative.
pub proof fn lemma_fitting_route_is_taken(
    started: int,
    catalog: Seq<FeatureView>,
    points: Seq<Point>,
    legs: Seq<int>,
    metric: spec_fn(Point, Point) -> int,
    taken: int,
)
    requires
        legs_follow(points, legs, metric),
        forall|a: Point, b: Point| 0 <= #[trigger] metric(a, b),
        points.len() <= summary_limit(),
        route_length(points, metric) <= summary_limit(),
        0 <= taken < points.len(),
    ensures
        RouteModel::fresh(started).feed(catalog, points.take(taken), legs.take(taken)).step_refusal(
            catalog,
            points[taken],
            legs[taken],
        ) is None,
        RouteModel::fresh(started).feed(catalog, points.take(taken), legs.take(taken)).step(
            catalog,
            points[taken],
            legs[taken],
        ) == RouteModel::fresh(started).feed(catalog, points.take(taken + 1), legs.take(taken + 1)),
{
    let upto = points.take(taken + 1);
    let legs_upto = legs.take(taken + 1);
    assert(upto.drop_last() =~= points.take(taken));
    assert(legs_upto.drop_last() =~= legs.take(taken));
    assert(legs_follow(upto, legs_upto, metric));
    lemma_route_totals(started, catalog, upto, legs_upto, metric);
    lemma_route_length_grows(points, metric, taken + 1);
    upto.lemma_filter_len(|point: Point| named_at(catalog, point));
}

/// The first points of a route are no longer than the whole route, where no
/// distance is negative.
pub proof fn lemma_route_length_grows(
    points: Seq<Point>,
    metric: spec_fn(Point, Point) -> int,
    taken: int,
)
    requires
        forall|a: Point, b: Point| 0 <= #[trigger] metric(a, b),
        0 <= taken <= points.len(),
    ensures
        route_length(points.take(taken), metric) <= route_length(points, metric),
    decreases points.len() - taken,
{
    if taken == points.len() {
        assert(points.take(taken) =~= points);
    } else {
        lemma_route_length_grows(points, metric, taken + 1);
        let longer = points.take(taken + 1);
        assert(longer.drop_last() =~= points.take(taken));
        if longer.len() <= 1 {
            lemma_route_length_is_not_negative(longer, metric);
            assert(points.take(taken).len() <= 1);
        }
    }
}

/// An accumulator whose route is open stays without a summary however many
/// points it is fed: only the end of the route brings one.
pub proof fn lemma_open_route_has_no_summary(
    route: RouteModel,
    catalog: Seq<FeatureView>,
    points: Seq<Point>,
    legs: Seq<int>,
)
    requires
        route.summary is None,
    ensures
        route.feed(catalog, points, legs).summary is None,
        route.feed(catalog, points, legs).state() != RouteState::Finalized,
    decreases points.len(),
{
    if points.len() > 0 {
        lemma_open_route_has_no_summary(route, catalog, points.drop_last(), legs.drop_last());
    }
}

/// The accumulator of one recorded route. It belongs to one call: it is
/// made when the call begins, takes each point of the call, and is spent
/// when the route ends.
#[derive(Debug)]
pub struct RouteAggregator {
    started: u64,
    previous: Option<Point>,
    point_count: i32,
    feature_count: i32,
    distance: i32,
    summary: Option<RouteSummary>,
}

impl View for RouteAggregator {
    type V = RouteModel;

    closed spec fn view(&self) -> RouteModel {
        RouteModel {
            started: self.started as int,
            previous: self.previous,
            point_count: self.point_count as int,
            feature_count: self.feature_count as int,
            distance: self.distance as int,
            summary: self.summary,
        }
    }
}

impl RouteAggregator {
    /// The accumulator of a route that starts at the given second.
    pub fn new(started: u64) -> (route: RouteAggregator)
        ensures
            route@ == RouteModel::fresh(started as int),
    {
        RouteAggregator {
            started,
            previous: None,
            point_count: 0,
            feature_count: 0,
            distance: 0,
            summary: None,
        }
    }

    /// Where the accumulator stands in its life.
    pub fn state(&self) -> (state: RouteState)
        ensures
            state == self@.state(),
    {
        if self.summary.is_some() {
            RouteState::Finalized
        } else if self.point_count == 0 {
            RouteState::Empty
        } else {
            RouteState::Accumulating
        }
    }

    /// The point taken last, if any was. The leg of the next point is the
    /// distance from this one.
    pub fn previous(&self) -> (point: Option<Point>)
        ensures
            point == self@.previous,
    {
        self.previous
    }

    /// How many points were taken so far.
    pub fn point_count(&self) -> (count: i32)
        ensures
            count == self@.point_count,
    {
        self.point_count
    }

    /// At how many of the points taken so far a named feature lies.
    pub fn feature_count(&self) -> (count: i32)
        ensures
            count == self@.feature_count,
    {
        self.feature_count
    }

    /// The distance covered so far, in metres.
    pub fn distance(&self) -> (metres: i32)
        ensures
            metres == self@.distance,
    {
        self.distance
    }

    /// The summary of the route. There is none while the route is open.
    pub fn summary(&self) -> (summary: Option<RouteSummary>)
        ensures
            summary == self@.summary,
            summary is Some <==> self@.state() == RouteState::Finalized,
    {
        self.summary
    }

    /// Takes the next point of the route. The point is counted; it is
    /// counted as a feature where the catalog has a named feature for it;
    /// and `leg`, the distance in metres from the point before, is added to
    /// the distance covered, unless this is the first point.
    ///
    /// The point is refused, and nothing changes, once the route has ended,
    /// or where a total would no longer fit in the summary.
    pub fn record(&mut self, index: &GeoIndex, point: Point, leg: u32) -> (done: Result<(), RouteError>)
        ensures
            done == match old(self)@.step_refusal(index@, point, leg as int) {
                Some(error) => Err::<(), RouteError>(error),
                None => Ok::<(), RouteError>(()),
            },
            final(self)@ == if done is Ok {
                old(self)@.step(index@, point, leg as int)
            } else {
                old(self)@
            },
    {
        if self.summary.is_some() {
            return Err(RouteError::Finalized);
        }
        let named = index.lookup(&point).is_named();
        let distance: i64 = if self.previous.is_some() {
            self.distance as i64 + leg as i64
        } else {
            self.distance as i64
        };
        if self.point_count == i32::MAX || (named && self.feature_count == i32::MAX) || distance
            > i32::MAX as i64 {
            return Err(RouteError::Overflow);
        }
        self.point_count = self.point_count + 1;
        if named {
            self.feature_count = self.feature_count + 1;
        }
        self.distance = distance as i32;
        self.previous = Some(point);
        Ok(())
    }

    /// Ends the route at the given second and gives its summary: the points
    /// taken, the features among them, the distance covered, and the whole
    /// seconds from the start of the route to its end.
    ///
    /// The end is refused, and nothing changes, where the route has already
    /// ended, where it would end before it started, or where the seconds
    /// would not fit in the summary.
    pub fn finish(&mut self, now: u64) -> (done: Result<RouteSummary, RouteError>)
        ensures
            done == match old(self)@.finish_refusal(now as int) {
                Some(error) => Err::<RouteSummary, RouteError>(error),
                None => Ok::<RouteSummary, RouteError>(old(self)@.summary_at(now as int)),
            },
            final(self)@ == if done is Ok {
                old(self)@.finished(now as int)
            } else {
                old(self)@
            },
    {
        if self.summary.is_some() {
            return Err(RouteError::Finalized);
        }
        if now < self.started {
            return Err(RouteError::EndsBeforeStart);
        }
        let elapsed: u64 = now - self.started;
        if elapsed > i32::MAX as u64 {
            return Err(RouteError::Overflow);
        }
        let summary = RouteSummary {
            point_count: self.point_count,
            feature_count: self.feature_count,
            distance: self.distance,
            elapsed_time: elapsed as i32,
        };
        self.summary = Some(summary);
        Ok(summary)
    }
}

} // verus!
