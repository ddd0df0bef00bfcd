//! What holds of the outlier filter, of the consensus and of the projection,
//! for all samples and positions.

use crate::binary64::{unit_exponent, Binary64};
use crate::locations::{
    consensus, filtered, one_region, one_reporting_point, projectable, retained,
    within_sane_distance, InsertTransmissionLocation, TransmissionLocaionError,
    TransmissionLocationRaw, POLE_LATITUDE, SANE_INTERPOLATION_DISTANCE,
};
use vstd::arithmetic::power2::pow2;
use vstd::prelude::*;

verus! {

/// The filter keeps no more samples than it was given.
pub proof fn lemma_retained_len(samples: Seq<TransmissionLocationRaw>, distances: Seq<Binary64>)
    ensures
        retained(samples, distances).len() <= samples.len(),
    decreases samples.len(),
{
    if samples.len() > 0 {
        lemma_retained_len(samples.take(samples.len() - 1), distances);
    }
}

/// Every sample that the filter keeps is one of the samples given, and its
/// distance is within the sane distance.
pub proof fn lemma_retained_are_near(
    samples: Seq<TransmissionLocationRaw>,
    distances: Seq<Binary64>,
    k: int,
)
    requires
        0 <= k < retained(samples, distances).len(),
    ensures
        exists|i: int|
            0 <= i < samples.len() && i < distances.len() && within_sane_distance(
                #[trigger] distances[i],
            ) && samples[i] == retained(samples, distances)[k],
    decreases samples.len(),
{
    let last = samples.len() - 1;
    let before = retained(samples.take(last), distances);
    if k < before.len() {
        lemma_retained_are_near(samples.take(last), distances, k);
        let i = choose|i: int|
            0 <= i < samples.take(last).len() && i < distances.len() && within_sane_distance(
                #[trigger] distances[i],
            ) && samples.take(last)[i] == before[k];
        assert(samples[i] == retained(samples, distances)[k]);
    } else {
        assert(within_sane_distance(distances[last]));
        assert(samples[last] == retained(samples, distances)[k]);
    }
}

/// Every sample whose distance is within the sane distance is kept.
pub proof fn lemma_near_are_retained(
    samples: Seq<TransmissionLocationRaw>,
    distances: Seq<Binary64>,
    i: int,
)
    requires
        0 <= i < samples.len(),
        i < distances.len(),
        within_sane_distance(distances[i]),
    ensures
        retained(samples, distances).contains(samples[i]),
    decreases samples.len(),
{
    let last = samples.len() - 1;
    let before = retained(samples.take(last), distances);
    if i < last {
        lemma_near_are_retained(samples.take(last), distances, i);
        let k = choose|k: int| 0 <= k < before.len() && before[k] == samples.take(last)[i];
        assert(retained(samples, distances)[k] == samples[i]);
    } else {
        assert(retained(samples, distances)[before.len() as int] == samples[i]);
    }
}

/// A sample that is an outlier is not kept, unless an equal sample is within
/// the sane distance.
pub proof fn lemma_outliers_are_dropped(
    samples: Seq<TransmissionLocationRaw>,
    distances: Seq<Binary64>,
    outlier: TransmissionLocationRaw,
)
    requires
        forall|i: int|
            0 <= i < samples.len() && i < distances.len() && within_sane_distance(
                #[trigger] distances[i],
            ) ==> samples[i] != outlier,
    ensures
        !retained(samples, distances).contains(outlier),
{
    if retained(samples, distances).contains(outlier) {
        let k = choose|k: int|
            0 <= k < retained(samples, distances).len() && retained(samples, distances)[k]
                == outlier;
        lemma_retained_are_near(samples, distances, k);
    }
}

/// Where every sample is within the sane distance, the filter keeps them all,
/// in their order.
pub proof fn lemma_all_near_all_retained(
    samples: Seq<TransmissionLocationRaw>,
    distances: Seq<Binary64>,
)
    requires
        samples.len() <= distances.len(),
        forall|i: int| 0 <= i < samples.len() ==> within_sane_distance(#[trigger] distances[i]),
    ensures
        retained(samples, distances) == samples,
    decreases samples.len(),
{
    if samples.len() > 0 {
        let last = samples.len() - 1;
        lemma_all_near_all_retained(samples.take(last), distances);
        assert(samples.take(last).push(samples[last]) == samples);
    }
}

/// Where no sample is within the sane distance, the filter keeps none.
pub proof fn lemma_none_near_none_retained(
    samples: Seq<TransmissionLocationRaw>,
    distances: Seq<Binary64>,
)
    requires
        forall|i: int|
            0 <= i < samples.len() && i < distances.len() ==> !within_sane_distance(
                #[trigger] distances[i],
            ),
    ensures
        retained(samples, distances).len() == 0,
    decreases samples.len(),
{
    if samples.len() > 0 {
        lemma_none_near_none_retained(samples.take(samples.len() - 1), distances);
    }
}

/// The sane distance is exclusive. A finite distance keeps its sample exactly
/// when it is below [`SANE_INTERPOLATION_DISTANCE`] meters, so that a sample at
/// exactly that distance is an outlier. A distance that is a NaN or positive
/// infinity keeps nothing.
pub proof fn lemma_sane_distance_is_exclusive(distance: Binary64)
    ensures
        distance.spec_is_finite() ==> (within_sane_distance(distance) <==> distance.value()
            < SANE_INTERPOLATION_DISTANCE * pow2(unit_exponent())),
        distance.denotes(SANE_INTERPOLATION_DISTANCE as int) ==> !within_sane_distance(distance),
        distance.spec_is_nan() ==> !within_sane_distance(distance),
        distance.spec_is_infinite() ==> (within_sane_distance(distance) <==> distance.sign()),
{
}

/// A smaller distance is no worse: what is below a distance that keeps its
/// sample keeps its sample too.
pub proof fn lemma_nearer_is_within(nearer: Binary64, distance: Binary64)
    requires
        within_sane_distance(distance),
        nearer.spec_lt(distance),
    ensures
        within_sane_distance(nearer),
{
}

/// Samples of two regions have no consensus: the outcome is `RegionMismatch`,
/// whatever else holds of them.
pub proof fn lemma_two_regions_mismatch(
    raw: Seq<TransmissionLocationRaw>,
    distances: Seq<Binary64>,
    lat: Binary64,
    lon: Binary64,
    i: int,
    j: int,
)
    requires
        0 <= i < raw.len(),
        0 <= j < raw.len(),
        raw[i].region != raw[j].region,
    ensures
        consensus(raw, distances, lat, lon) == Err::<
            InsertTransmissionLocation,
            TransmissionLocaionError,
        >(TransmissionLocaionError::RegionMismatch),
{
    if one_region(raw) {
        assert(raw[i].region == raw[0].region);
        assert(raw[j].region == raw[0].region);
    }
}

/// Samples of one region and of two reporting points have no consensus: the
/// outcome is `ReportingPointMismatch`.
pub proof fn lemma_two_reporting_points_mismatch(
    raw: Seq<TransmissionLocationRaw>,
    distances: Seq<Binary64>,
    lat: Binary64,
    lon: Binary64,
    i: int,
    j: int,
)
    requires
        0 <= i < raw.len(),
        0 <= j < raw.len(),
        forall|k: int, l: int|
            0 <= k < raw.len() && 0 <= l < raw.len() ==> (#[trigger] raw[k]).region == (
            #[trigger] raw[l]).region,
        raw[i].reporting_point != raw[j].reporting_point,
    ensures
        consensus(raw, distances, lat, lon) == Err::<
            InsertTransmissionLocation,
            TransmissionLocaionError,
        >(TransmissionLocaionError::ReportingPointMismatch),
{
    assert(one_region(raw)) by {
        assert forall|k: int| 0 <= k < raw.len() implies (#[trigger] raw[k]).region
            == raw[0].region by {}
    }
    if one_reporting_point(raw) {
        assert(raw[i].reporting_point == raw[0].reporting_point);
        assert(raw[j].reporting_point == raw[0].reporting_point);
    }
}

/// Samples of one reporting point that are all outliers have no consensus: the
/// outcome is `NoMatches`.
pub proof fn lemma_all_outliers_no_matches(
    raw: Seq<TransmissionLocationRaw>,
    distances: Seq<Binary64>,
    lat: Binary64,
    lon: Binary64,
)
    requires
        raw.len() > 0,
        one_region(raw),
        one_reporting_point(raw),
        forall|i: int|
            0 <= i < raw.len() && i < distances.len() ==> !within_sane_distance(
                #[trigger] distances[i],
            ),
    ensures
        consensus(raw, distances, lat, lon) == Err::<
            InsertTransmissionLocation,
            TransmissionLocaionError,
        >(TransmissionLocaionError::NoMatches),
        filtered(raw, distances) == Err::<Seq<TransmissionLocationRaw>, TransmissionLocaionError>(
            TransmissionLocaionError::NoMatches,
        ),
{
    lemma_none_near_none_retained(raw, distances);
}

/// The consensus is a function of the samples, of their distances and of the
/// mean: two runs on the same values give the same outcome, and a position
/// that comes out is never marked as ground truth, has no key yet, and is of
/// the region and the reporting point of the samples.
pub proof fn lemma_consensus_is_deterministic(
    raw: Seq<TransmissionLocationRaw>,
    distances: Seq<Binary64>,
    lat: Binary64,
    lon: Binary64,
    first: Result<InsertTransmissionLocation, TransmissionLocaionError>,
    second: Result<InsertTransmissionLocation, TransmissionLocaionError>,
)
    requires
        first == consensus(raw, distances, lat, lon),
        second == consensus(raw, distances, lat, lon),
    ensures
        first == second,
        first matches Ok(location) ==> {
            &&& !location.ground_truth
            &&& location.id is None
            &&& location.lat == lat
            &&& location.lon == lon
            &&& forall|i: int|
                0 <= i < raw.len() ==> (#[trigger] raw[i]).region == location.region && raw[i].reporting_point
                    == location.reporting_point
        },
{
}

/// Each sample with its distance.
pub open spec fn measured(
    samples: Seq<TransmissionLocationRaw>,
    distances: Seq<Binary64>,
) -> Seq<(TransmissionLocationRaw, Binary64)> {
    Seq::new(samples.len(), |i: int| (samples[i], distances[i]))
}

/// Every measured sample of the one collection is a measured sample of the
/// other, where both hold the same measured samples as often.
proof fn lemma_measured_elsewhere(
    raw: Seq<TransmissionLocationRaw>,
    distances: Seq<Binary64>,
    other: Seq<TransmissionLocationRaw>,
    other_distances: Seq<Binary64>,
    i: int,
) -> (j: int)
    requires
        raw.len() == distances.len(),
        other.len() == other_distances.len(),
        measured(raw, distances).to_multiset() == measured(other, other_distances).to_multiset(),
        0 <= i < raw.len(),
    ensures
        0 <= j < other.len(),
        other[j] == raw[i],
        other_distances[j] == distances[i],
{
    let here = measured(raw, distances);
    let there = measured(other, other_distances);
    here.to_multiset_ensures();
    there.to_multiset_ensures();
    assert(here[i] == (raw[i], distances[i]));
    assert(here.contains(here[i]));
    assert(here.to_multiset().count(here[i]) > 0);
    assert(there.to_multiset().count(here[i]) > 0);
    assert(there.contains(here[i]));
    let j = choose|j: int| 0 <= j < there.len() && there[j] == here[i];
    assert(there[j] == (other[j], other_distances[j]));
    j
}

/// What the order of the samples cannot change, one direction.
proof fn lemma_order_one_way(
    raw: Seq<TransmissionLocationRaw>,
    distances: Seq<Binary64>,
    other: Seq<TransmissionLocationRaw>,
    other_distances: Seq<Binary64>,
)
    requires
        raw.len() == distances.len(),
        other.len() == other_distances.len(),
        measured(raw, distances).to_multiset() == measured(other, other_distances).to_multiset(),
    ensures
        raw.len() == other.len(),
        one_region(raw) ==> one_region(other),
        one_reporting_point(raw) ==> one_reporting_point(other),
        raw.len() > 0 && one_region(raw) ==> other[0].region == raw[0].region,
        raw.len() > 0 && one_reporting_point(raw) ==> other[0].reporting_point
            == raw[0].reporting_point,
        retained(raw, distances).len() == 0 ==> retained(other, other_distances).len() == 0,
{
    measured(raw, distances).to_multiset_ensures();
    measured(other, other_distances).to_multiset_ensures();
    assert forall|j: int| 0 <= j < other.len() implies exists|i: int|
        0 <= i < raw.len() && raw[i] == #[trigger] other[j] && distances[i]
            == other_distances[j] by {
        let i = lemma_measured_elsewhere(other, other_distances, raw, distances, j);
    }
    if one_region(raw) {
        assert forall|j: int| 0 <= j < other.len() implies (#[trigger] other[j]).region
            == raw[0].region by {
            let i = lemma_measured_elsewhere(other, other_distances, raw, distances, j);
        }
    }
    if one_reporting_point(raw) {
        assert forall|j: int| 0 <= j < other.len() implies (#[trigger] other[j]).reporting_point
            == raw[0].reporting_point by {
            let i = lemma_measured_elsewhere(other, other_distances, raw, distances, j);
        }
    }
    if retained(raw, distances).len() == 0 {
        assert forall|j: int|
            0 <= j < other.len() && j < other_distances.len() implies !within_sane_distance(
            #[trigger] other_distances[j],
        ) by {
            let i = lemma_measured_elsewhere(other, other_distances, raw, distances, j);
            if within_sane_distance(distances[i]) {
                lemma_near_are_retained(raw, distances, i);
            }
        }
        lemma_none_near_none_retained(other, other_distances);
    }
}

/// The outcome does not depend on the order of the samples: two collections
/// that hold the same samples with the same distances as often, in whatever
/// order, have the same consensus for the same mean.
pub proof fn lemma_consensus_ignores_order(
    raw: Seq<TransmissionLocationRaw>,
    distances: Seq<Binary64>,
    other: Seq<TransmissionLocationRaw>,
    other_distances: Seq<Binary64>,
    lat: Binary64,
    lon: Binary64,
)
    requires
        raw.len() == distances.len(),
        other.len() == other_distances.len(),
        measured(raw, distances).to_multiset() == measured(other, other_distances).to_multiset(),
    ensures
        consensus(raw, distances, lat, lon) == consensus(other, other_distances, lat, lon),
{
    lemma_order_one_way(raw, distances, other, other_distances);
    lemma_order_one_way(other, other_distances, raw, distances);
}

/// The projection has no place for a pole, for a latitude beyond one, or for
/// a coordinate that is not finite: such a position is never annotated.
pub proof fn lemma_poles_are_not_projectable(lat: Binary64, lon: Binary64)
    ensures
        lat.denotes(POLE_LATITUDE as int) ==> !projectable(lat, lon),
        lat.denotes(-POLE_LATITUDE as int) ==> !projectable(lat, lon),
        !lat.is_below(POLE_LATITUDE as int) ==> !projectable(lat, lon),
        !lat.spec_is_finite() || !lon.spec_is_finite() ==> !projectable(lat, lon),
{
}

} // verus!
