//! The catalog of known features and the two questions asked of it: what
//! lies at a point, and what lies inside a rectangle.

use vstd::prelude::*;
use crate::geo::{feature_views, Feature, FeatureView, Point, Rectangle};

verus! {

/// Position `at` holds the first feature of the catalog that lies at the
/// point.
pub open spec fn first_at(catalog: Seq<FeatureView>, point: Point, at: int) -> bool {
    &&& 0 <= at < catalog.len()
    &&& catalog[at].location == point
    &&& forall|k: int| 0 <= k < at ==> (#[trigger] catalog[k]).location != point
}

/// No feature of the catalog lies at the point.
pub open spec fn nothing_at(catalog: Seq<FeatureView>, point: Point) -> bool {
    forall|k: int| 0 <= k < catalog.len() ==> (#[trigger] catalog[k]).location != point
}

/// What the catalog says of a point: the first feature that lies there, or
/// the unnamed feature at that point when none does.
pub open spec fn lookup_in(catalog: Seq<FeatureView>, point: Point) -> FeatureView {
    if exists|at: int| first_at(catalog, point, at) {
        catalog[choose|at: int| first_at(catalog, point, at)]
    } else {
        FeatureView::unnamed(point)
    }
}

/// The feature is listed for the rectangle: it carries a name and lies
/// inside the rectangle or on its border.
pub open spec fn listed(feature: FeatureView, rect: Rectangle) -> bool {
    feature.named() && rect.covers(feature.location)
}

/// The features listed for a rectangle, in catalog order.
pub open spec fn query_in(catalog: Seq<FeatureView>, rect: Rectangle) -> Seq<FeatureView> {
    catalog.filter(|feature: FeatureView| listed(feature, rect))
}

/// Position `at` holds the first feature listed for the rectangle among
/// those from position `from` on.
pub open spec fn next_listed(catalog: Seq<FeatureView>, rect: Rectangle, from: int, at: int) -> bool {
    &&& 0 <= from <= at < catalog.len()
    &&& listed(catalog[at], rect)
    &&& forall|k: int| from <= k < at ==> !listed(#[trigger] catalog[k], rect)
}

/// No feature from position `from` on is listed for the rectangle.
pub open spec fn none_listed(catalog: Seq<FeatureView>, rect: Rectangle, from: int) -> bool {
    forall|k: int| 0 <= from <= k < catalog.len() ==> !listed(#[trigger] catalog[k], rect)
}

/// The first feature at a point is the only one that is first there.
pub proof fn lemma_first_at_is_unique(catalog: Seq<FeatureView>, point: Point, a: int, b: int)
    requires
        first_at(catalog, point, a),
        first_at(catalog, point, b),
    ensures
        a == b,
{
    if a < b {
        assert(catalog[a].location != point);
    } else if b < a {
        assert(catalog[b].location != point);
    }
}

/// Where position `at` holds the first feature at a point, the catalog
/// answers with that feature.
pub proof fn lemma_lookup_gives_first(catalog: Seq<FeatureView>, point: Point, at: int)
    requires
        first_at(catalog, point, at),
    ensures
        lookup_in(catalog, point) == catalog[at],
{
    let chosen = choose|k: int| first_at(catalog, point, k);
    lemma_first_at_is_unique(catalog, point, at, chosen);
}

/// A point at which no feature of the catalog lies is answered with the
/// unnamed feature at that point: a plain result with an empty name.
pub proof fn lemma_lookup_of_absent_point(catalog: Seq<FeatureView>, point: Point)
    requires
        nothing_at(catalog, point),
    ensures
        lookup_in(catalog, point) == FeatureView::unnamed(point),
        !lookup_in(catalog, point).named(),
{
    if exists|at: int| first_at(catalog, point, at) {
        let at = choose|at: int| first_at(catalog, point, at);
        assert(catalog[at].location != point);
    }
}

/// Whatever the point, the answer of the catalog lies at that point.
pub proof fn lemma_lookup_stays_at_point(catalog: Seq<FeatureView>, point: Point)
    ensures
        lookup_in(catalog, point).location == point,
{
}

/// A query yields exactly the named features of the catalog that lie inside
/// the rectangle: every feature it yields is one of them, and each of them
/// is yielded.
pub proof fn lemma_query_is_exact(catalog: Seq<FeatureView>, rect: Rectangle, feature: FeatureView)
    ensures
        query_in(catalog, rect).contains(feature) <==> catalog.contains(feature) && listed(
            feature,
            rect,
        ),
{
    let keep = |f: FeatureView| listed(f, rect);
    let found = catalog.filter(keep);
    if found.contains(feature) {
        catalog.lemma_filter_contains_rev(keep, feature);
    }
    if catalog.contains(feature) && listed(feature, rect) {
        let at = choose|at: int| 0 <= at < catalog.len() && catalog[at] == feature;
        catalog.lemma_filter_contains(keep, at);
    }
}

/// A query keeps the order of the catalog: of two features that it yields,
/// the one that it yields first stands first in the catalog.
pub proof fn lemma_query_keeps_catalog_order(
    catalog: Seq<FeatureView>,
    rect: Rectangle,
    first: int,
    second: int,
)
    requires
        0 <= first < second < query_in(catalog, rect).len(),
    ensures
        exists|a: int, b: int|
            0 <= a < b < catalog.len() && catalog[a] == query_in(catalog, rect)[first] && catalog[b]
                == query_in(catalog, rect)[second],
    decreases catalog.len(),
{
    reveal(Seq::filter);
    let keep = |feature: FeatureView| listed(feature, rect);
    let found = catalog.filter(keep);
    let earlier = catalog.drop_last();
    let found_earlier = earlier.filter(keep);
    if second < found_earlier.len() {
        lemma_query_keeps_catalog_order(earlier, rect, first, second);
        let (a, b) = choose|a: int, b: int|
            0 <= a < b < earlier.len() && earlier[a] == query_in(earlier, rect)[first] && earlier[b]
                == query_in(earlier, rect)[second];
        assert(catalog[a] == found[first] && catalog[b] == found[second]);
    } else {
        assert(found_earlier.contains(found_earlier[first]));
        earlier.lemma_filter_contains_rev(keep, found_earlier[first]);
        let a = choose|a: int| 0 <= a < earlier.len() && earlier[a] == found_earlier[first];
        let b = catalog.len() - 1;
        assert(catalog[a] == found[first] && catalog[b] == found[second]);
    }
}

/// A query depends on the edges of the rectangle alone: rectangles with the
/// same edges yield the same features in the same order.
pub proof fn lemma_query_depends_on_edges(catalog: Seq<FeatureView>, a: Rectangle, b: Rectangle)
    requires
        a.same_edges(b),
    ensures
        query_in(catalog, a) == query_in(catalog, b),
{
    let keep_a = |f: FeatureView| listed(f, a);
    let keep_b = |f: FeatureView| listed(f, b);
    assert(keep_a =~= keep_b) by {
        assert forall|f: FeatureView| #[trigger] keep_a(f) == keep_b(f) by {}
    }
}

/// A query does not depend on which corner of the rectangle was given first,
/// nor on which of the two diagonals the corners lie.
pub proof fn lemma_query_ignores_corner_order(catalog: Seq<FeatureView>, rect: Rectangle)
    ensures
        query_in(catalog, rect) == query_in(catalog, Rectangle { lo: rect.hi, hi: rect.lo }),
        query_in(catalog, rect) == query_in(
            catalog,
            Rectangle {
                lo: Point { latitude: rect.hi.latitude, longitude: rect.lo.longitude },
                hi: Point { latitude: rect.lo.latitude, longitude: rect.hi.longitude },
            },
        ),
        query_in(catalog, rect) == query_in(
            catalog,
            Rectangle {
                lo: Point { latitude: rect.lo.latitude, longitude: rect.hi.longitude },
                hi: Point { latitude: rect.hi.latitude, longitude: rect.lo.longitude },
            },
        ),
        query_in(catalog, rect) == query_in(catalog, rect.ordered()),
{
    lemma_query_depends_on_edges(catalog, rect, Rectangle { lo: rect.hi, hi: rect.lo });
    lemma_query_depends_on_edges(
        catalog,
        rect,
        Rectangle {
            lo: Point { latitude: rect.hi.latitude, longitude: rect.lo.longitude },
            hi: Point { latitude: rect.lo.latitude, longitude: rect.hi.longitude },
        },
    );
    lemma_query_depends_on_edges(
        catalog,
        rect,
        Rectangle {
            lo: Point { latitude: rect.lo.latitude, longitude: rect.hi.longitude },
            hi: Point { latitude: rect.hi.latitude, longitude: rect.lo.longitude },
        },
    );
    lemma_query_depends_on_edges(catalog, rect, rect.ordered());
}

/// Where no feature in a stretch of the catalog is listed for a rectangle,
/// a query over that stretch yields nothing.
proof fn lemma_unlisted_stretch_is_empty(catalog: Seq<FeatureView>, rect: Rectangle, from: int, to: int)
    requires
        0 <= from <= to <= catalog.len(),
        forall|k: int| from <= k < to ==> !listed(#[trigger] catalog[k], rect),
    ensures
        query_in(catalog.subrange(from, to), rect) == Seq::<FeatureView>::empty(),
    decreases to - from,
{
    reveal(Seq::filter);
    let stretch = catalog.subrange(from, to);
    if from < to {
        assert(stretch.drop_last() =~= catalog.subrange(from, to - 1));
        assert(stretch.last() == catalog[to - 1]);
        lemma_unlisted_stretch_is_empty(catalog, rect, from, to - 1);
    }
    assert(query_in(stretch, rect) =~= Seq::<FeatureView>::empty());
}

/// Walking the catalog from one listed feature to the next yields what a
/// query yields. Where the walk from position `from` stops at position
/// `at`, the query over the catalog from `from` on starts with the feature
/// at `at` and goes on with the query over the catalog after `at`.
pub proof fn lemma_walk_finds_next(catalog: Seq<FeatureView>, rect: Rectangle, from: int, at: int)
    requires
        next_listed(catalog, rect, from, at),
    ensures
        query_in(catalog.skip(from), rect) == seq![catalog[at]] + query_in(catalog.skip(at + 1), rect),
{
    let keep = |feature: FeatureView| listed(feature, rect);
    let skipped = catalog.subrange(from, at);
    let hit = seq![catalog[at]];
    let rest = catalog.skip(at + 1);
    assert(catalog.skip(from) =~= skipped + hit + rest);
    Seq::filter_distributes_over_add(skipped + hit, rest, keep);
    Seq::filter_distributes_over_add(skipped, hit, keep);
    lemma_unlisted_stretch_is_empty(catalog, rect, from, at);
    assert(hit.filter(keep) =~= hit) by {
        reveal(Seq::filter);
        assert(hit.drop_last() =~= Seq::<FeatureView>::empty());
        assert(hit.last() == catalog[at]);
    }
    assert(skipped.filter(keep) + hit.filter(keep) =~= hit);
}

/// Where the walk from position `from` finds no listed feature, the query
/// over the catalog from `from` on yields nothing: the walk is over.
pub proof fn lemma_walk_ends(catalog: Seq<FeatureView>, rect: Rectangle, from: int)
    requires
        0 <= from <= catalog.len(),
        none_listed(catalog, rect, from),
    ensures
        query_in(catalog.skip(from), rect) == Seq::<FeatureView>::empty(),
{
    assert(catalog.skip(from) =~= catalog.subrange(from, catalog.len() as int));
    lemma_unlisted_stretch_is_empty(catalog, rect, from, catalog.len() as int);
}

/// The catalog of known features: a fixed sequence, never changed once it is
/// built, so that any number of readers may share it.
pub struct GeoIndex {
    catalog: Vec<Feature>,
}

impl View for GeoIndex {
    type V = Seq<FeatureView>;

    closed spec fn view(&self) -> Seq<FeatureView> {
        feature_views(self.catalog@)
    }
}

impl GeoIndex {
    /// Builds the catalog from its features, which keep their order.
    pub fn new(features: Vec<Feature>) -> (index: GeoIndex)
        ensures
            index@ == feature_views(features@),
    {
        GeoIndex { catalog: features }
    }

    /// The number of features in the catalog.
    pub fn len(&self) -> (count: usize)
        ensures
            count == self@.len(),
    {
        self.catalog.len()
    }

    /// The feature at a position of the catalog, or nothing past its end.
    pub fn get(&self, at: usize) -> (feature: Option<Feature>)
        ensures
            match feature {
                Some(feature) => at < self@.len() && feature@ == self@[at as int],
                None => at >= self@.len(),
            },
    {
        if at < self.catalog.len() {
            Some(self.catalog[at].clone())
        } else {
            None
        }
    }

    /// Answers what lies at a point: the first feature of the catalog whose
    /// location is exactly that point, or the unnamed feature at that point
    /// when there is none. Finding nothing is an answer, not a failure.
    pub fn lookup(&self, point: &Point) -> (feature: Feature)
        ensures
            feature@ == lookup_in(self@, *point),
            feature@.location == *point,
            nothing_at(self@, *point) ==> feature@ == FeatureView::unnamed(*point),
            forall|at: int| first_at(self@, *point, at) ==> feature@ == self@[at],
    {
        let mut at: usize = 0;
        while at < self.catalog.len()
            invariant
                at <= self.catalog.len(),
                forall|k: int| 0 <= k < at ==> (#[trigger] self@[k]).location != *point,
            decreases self.catalog.len() - at,
        {
            if self.catalog[at].location == *point {
                proof {
                    assert(first_at(self@, *point, at as int));
                    lemma_lookup_gives_first(self@, *point, at as int);
                    assert forall|other: int| first_at(self@, *point, other) implies self@[other]
                        == self@[at as int] by {
                        lemma_first_at_is_unique(self@, *point, at as int, other);
                    }
                }
                return self.catalog[at].clone();
            }
            at += 1;
        }
        proof {
            lemma_lookup_of_absent_point(self@, *point);
        }
        Feature::unnamed(*point)
    }

    /// Lists the named features that lie inside a rectangle or on its
    /// border, in catalog order. The corners of the rectangle may be given
    /// in any order.
    pub fn query(&self, rect: &Rectangle) -> (found: Vec<Feature>)
        ensures
            feature_views(found@) == query_in(self@, *rect),
    {
        let ghost keep = |feature: FeatureView| listed(feature, *rect);
        let bounds = rect.normalize();
        let mut found: Vec<Feature> = Vec::new();
        let mut at: usize = 0;
        proof {
            reveal(Seq::filter);
            assert(self@.take(0) =~= Seq::<FeatureView>::empty());
            assert(feature_views(found@) =~= self@.take(0).filter(keep));
        }
        while at < self.catalog.len()
            invariant
                at <= self.catalog.len(),
                bounds == rect.ordered(),
                keep == (|feature: FeatureView| listed(feature, *rect)),
                feature_views(found@) == self@.take(at as int).filter(keep),
            decreases self.catalog.len() - at,
        {
            let feature = &self.catalog[at];
            let ghost before = feature_views(found@);
            proof {
                reveal(Seq::filter);
                assert(self@.take(at + 1).drop_last() =~= self@.take(at as int));
                assert(self@.take(at + 1).last() == feature@);
            }
            if feature.is_named() && bounds.contains(&feature.location) {
                found.push(feature.clone());
                proof {
                    assert(feature_views(found@) =~= before.push(feature@));
                }
            }
            at += 1;
        }
        proof {
            assert(self@.take(at as int) =~= self@);
        }
        found
    }

    /// Finds the next feature listed for a rectangle, starting at position
    /// `from`: the position of the first such feature at or after `from`,
    /// or nothing when none is left. Asking again from the position after
    /// an answer walks through the listed features one by one, and asking
    /// from position zero starts over.
    pub fn next_match(&self, rect: &Rectangle, from: usize) -> (next: Option<usize>)
        ensures
            match next {
                Some(at) => next_listed(self@, *rect, from as int, at as int),
                None => none_listed(self@, *rect, from as int),
            },
    {
        let bounds = rect.normalize();
        let mut at: usize = from;
        while at < self.catalog.len()
            invariant
                from <= at,
                bounds == rect.ordered(),
                forall|k: int| from <= k < at && k < self@.len() ==> !listed(#[trigger] self@[k], *rect),
            decreases self.catalog.len() - at,
        {
            let feature = &self.catalog[at];
            if feature.is_named() && bounds.contains(&feature.location) {
                return Some(at);
            }
            at += 1;
        }
        None
    }
}

} // verus!
