//! The stored form of the catalog and its way into features.

use vstd::prelude::*;
use crate::geo::{feature_views, Feature, FeatureView, Point};

verus! {

/// Where a stored feature lies, as the store spells it.
#[derive(Clone, Copy, Debug, PartialEq, Eq, Structural)]
pub struct Location {
    pub latitude: i32,
    pub longitude: i32,
}

/// One feature as the store holds it.
#[derive(Debug, PartialEq, Eq)]
pub struct Record {
    pub location: Location,
    pub name: String,
}

impl Record {
    /// The feature that the record stands for: the same name at the same
    /// coordinates.
    pub open spec fn feature(self) -> FeatureView {
        FeatureView {
            name: self.name@,
            location: Point {
                latitude: self.location.latitude,
                longitude: self.location.longitude,
            },
        }
    }
}

/// The features that a sequence of records stands for, in the same order.
pub open spec fn loaded(records: Seq<Record>) -> Seq<FeatureView> {
    records.map_values(|record: Record| record.feature())
}

/// Turns the records of the store into the features of the catalog, one for
/// one and in the same order.
pub fn load(records: Vec<Record>) -> (features: Vec<Feature>)
    ensures
        feature_views(features@) == loaded(records@),
{
    let ghost all = records@;
    let mut features: Vec<Feature> = Vec::new();
    for record in iter: records
        invariant
            iter.seq() == all,
            feature_views(features@) =~= loaded(all.take(iter.index() as int)),
    {
        let ghost before = feature_views(features@);
        features.push(
            Feature {
                name: record.name,
                location: Point {
                    latitude: record.location.latitude,
                    longitude: record.location.longitude,
                },
            },
        );
        proof {
            assert(feature_views(features@) =~= before.push(record.feature()));
            assert(all.take(iter.index() + 1) =~= all.take(iter.index() as int).push(record));
        }
    }
    proof {
        assert(all.take(all.len() as int) =~= all);
    }
    features
}

} // verus!
