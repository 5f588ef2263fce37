//! Points, rectangles, features and the messages built from them, in
//! fixed-point degrees.

use vstd::prelude::*;

verus! {

/// Largest latitude, in degrees scaled by ten million.
pub const MAX_LATITUDE: i32 = 900_000_000;

/// Largest longitude, in degrees scaled by ten million.
pub const MAX_LONGITUDE: i32 = 1_800_000_000;

/// A position on the globe. Both coordinates are degrees multiplied by ten
/// million and rounded to an integer.
#[derive(Clone, Copy, Debug, PartialEq, Eq, Structural)]
pub struct Point {
    pub latitude: i32,
    pub longitude: i32,
}

impl Point {
    /// The coordinates lie on the globe: latitude within a quarter turn of
    /// the equator, longitude within half a turn of the prime meridian.
    pub open spec fn in_bounds(self) -> bool {
        &&& -MAX_LATITUDE <= self.latitude <= MAX_LATITUDE
        &&& -MAX_LONGITUDE <= self.longitude <= MAX_LONGITUDE
    }

    /// Builds a point from its coordinates, or nothing when they do not lie
    /// on the globe.
    pub fn new(latitude: i32, longitude: i32) -> (made: Option<Point>)
        ensures
            made == if (Point { latitude, longitude }).in_bounds() {
                Some(Point { latitude, longitude })
            } else {
                None::<Point>
            },
    {
        let point = Point { latitude, longitude };
        if point.is_in_bounds() {
            Some(point)
        } else {
            None
        }
    }

    /// Tells whether the coordinates lie on the globe.
    pub fn is_in_bounds(&self) -> (ok: bool)
        ensures
            ok == self.in_bounds(),
    {
        -MAX_LATITUDE <= self.latitude && self.latitude <= MAX_LATITUDE
            && -MAX_LONGITUDE <= self.longitude && self.longitude <= MAX_LONGITUDE
    }
}

/// The smaller of two coordinates.
pub open spec fn lesser(a: i32, b: i32) -> i32 {
    if a <= b {
        a
    } else {
        b
    }
}

/// The larger of two coordinates.
pub open spec fn greater(a: i32, b: i32) -> i32 {
    if a <= b {
        b
    } else {
        a
    }
}

/// A rectangle given by two diagonally opposite corners. Either corner may
/// be the one named `lo`: on each axis the smaller coordinate bounds the
/// rectangle from below and the larger from above.
#[derive(Clone, Copy, Debug, PartialEq, Eq, Structural)]
pub struct Rectangle {
    pub lo: Point,
    pub hi: Point,
}

impl Rectangle {
    /// The southern edge.
    pub open spec fn south(self) -> i32 {
        lesser(self.lo.latitude, self.hi.latitude)
    }

    /// The northern edge.
    pub open spec fn north(self) -> i32 {
        greater(self.lo.latitude, self.hi.latitude)
    }

    /// The western edge.
    pub open spec fn west(self) -> i32 {
        lesser(self.lo.longitude, self.hi.longitude)
    }

    /// The eastern edge.
    pub open spec fn east(self) -> i32 {
        greater(self.lo.longitude, self.hi.longitude)
    }

    /// The point lies inside the rectangle or on its border.
    pub open spec fn covers(self, point: Point) -> bool {
        &&& self.south() <= point.latitude <= self.north()
        &&& self.west() <= point.longitude <= self.east()
    }

    /// The same rectangle with `lo` at its south-west corner and `hi` at its
    /// north-east corner.
    pub open spec fn ordered(self) -> Rectangle {
        Rectangle {
            lo: Point { latitude: self.south(), longitude: self.west() },
            hi: Point { latitude: self.north(), longitude: self.east() },
        }
    }

    /// Two rectangles have the same four edges.
    pub open spec fn same_edges(self, other: Rectangle) -> bool {
        &&& self.south() == other.south()
        &&& self.north() == other.north()
        &&& self.west() == other.west()
        &&& self.east() == other.east()
    }

    /// Puts `lo` at the south-west corner and `hi` at the north-east corner.
    pub fn normalize(&self) -> (rect: Rectangle)
        ensures
            rect == self.ordered(),
    {
        let (south, north) = if self.lo.latitude <= self.hi.latitude {
            (self.lo.latitude, self.hi.latitude)
        } else {
            (self.hi.latitude, self.lo.latitude)
        };
        let (west, east) = if self.lo.longitude <= self.hi.longitude {
            (self.lo.longitude, self.hi.longitude)
        } else {
            (self.hi.longitude, self.lo.longitude)
        };
        Rectangle {
            lo: Point { latitude: south, longitude: west },
            hi: Point { latitude: north, longitude: east },
        }
    }

    /// Tells whether the point lies inside the rectangle or on its border.
    pub fn contains(&self, point: &Point) -> (inside: bool)
        ensures
            inside == self.covers(*point),
    {
        let bounds = self.normalize();
        bounds.lo.latitude <= point.latitude && point.latitude <= bounds.hi.latitude
            && bounds.lo.longitude <= point.longitude && point.longitude <= bounds.hi.longitude
    }
}

/// Rectangles with the same edges cover the same points, whichever corners
/// they were given by.
pub proof fn lemma_covers_depends_on_edges(a: Rectangle, b: Rectangle, point: Point)
    requires
        a.same_edges(b),
    ensures
        a.covers(point) == b.covers(point),
{
}

/// Exchanging the two corners, or the two latitudes, or the two longitudes,
/// keeps the edges of a rectangle, and so does putting the corners in order.
pub proof fn lemma_corner_order_keeps_edges(rect: Rectangle)
    ensures
        rect.same_edges(Rectangle { lo: rect.hi, hi: rect.lo }),
        rect.same_edges(
            Rectangle {
                lo: Point { latitude: rect.hi.latitude, longitude: rect.lo.longitude },
                hi: Point { latitude: rect.lo.latitude, longitude: rect.hi.longitude },
            },
        ),
        rect.same_edges(
            Rectangle {
                lo: Point { latitude: rect.lo.latitude, longitude: rect.hi.longitude },
                hi: Point { latitude: rect.hi.latitude, longitude: rect.lo.longitude },
            },
        ),
        rect.same_edges(rect.ordered()),
{
}

/// What a feature is in contracts: its name as a sequence of characters and
/// its location.
pub struct FeatureView {
    pub name: Seq<char>,
    pub location: Point,
}

impl FeatureView {
    /// The feature carries a name. An empty name says that nothing is known
    /// at the location.
    pub open spec fn named(self) -> bool {
        self.name.len() > 0
    }

    /// The feature that says that nothing is known at a point.
    pub open spec fn unnamed(location: Point) -> FeatureView {
        FeatureView { name: Seq::empty(), location }
    }
}

/// Something named at a point. An empty name means that nothing is known
/// there.
#[derive(Debug, PartialEq, Eq)]
pub struct Feature {
    pub name: String,
    pub location: Point,
}

impl View for Feature {
    type V = FeatureView;

    open spec fn view(&self) -> FeatureView {
        FeatureView { name: self.name@, location: self.location }
    }
}

impl Clone for Feature {
    fn clone(&self) -> (copy: Self)
        ensures
            copy == *self,
    {
        Feature { name: self.name.clone(), location: self.location }
    }
}

impl Feature {
    /// A feature with the given name at the given point.
    pub fn new(name: String, location: Point) -> (feature: Feature)
        ensures
            feature.name == name,
            feature.location == location,
    {
        Feature { name, location }
    }

    /// The feature that says that nothing is known at a point.
    pub fn unnamed(location: Point) -> (feature: Feature)
        ensures
            feature@ == FeatureView::unnamed(location),
    {
        Feature { name: String::new(), location }
    }

    /// Tells whether the feature carries a name.
    pub fn is_named(&self) -> (named: bool)
        ensures
            named == self@.named(),
    {
        !self.name.as_str().is_empty()
    }
}

/// The views of a sequence of features, in the same order.
pub open spec fn feature_views(features: Seq<Feature>) -> Seq<FeatureView> {
    features.map_values(|feature: Feature| feature@)
}

/// What a note is in contracts: where it was sent from and its text as a
/// sequence of characters.
pub struct RouteNoteView {
    pub location: Point,
    pub message: Seq<char>,
}

/// A message sent from a point while a route is travelled.
#[derive(Debug, PartialEq, Eq)]
pub struct RouteNote {
    pub location: Point,
    pub message: String,
}

impl View for RouteNote {
    type V = RouteNoteView;

    open spec fn view(&self) -> RouteNoteView {
        RouteNoteView { location: self.location, message: self.message@ }
    }
}

impl Clone for RouteNote {
    fn clone(&self) -> (copy: Self)
        ensures
            copy == *self,
    {
        RouteNote { location: self.location, message: self.message.clone() }
    }
}

impl RouteNote {
    /// A note with the given text, sent from the given point.
    pub fn new(location: Point, message: String) -> (note: RouteNote)
        ensures
            note.location == location,
            note.message == message,
    {
        RouteNote { location, message }
    }
}

/// The views of a sequence of notes, in the same order.
pub open spec fn note_views(notes: Seq<RouteNote>) -> Seq<RouteNoteView> {
    notes.map_values(|note: RouteNote| note@)
}

/// What a recorded route came to: how many points were received, at how many
/// of them a named feature lies, the distance covered in metres and the time
/// taken in seconds.
#[derive(Clone, Copy, Debug, PartialEq, Eq, Structural)]
pub struct RouteSummary {
    pub point_count: i32,
    pub feature_count: i32,
    pub distance: i32,
    pub elapsed_time: i32,
}

} // verus!
