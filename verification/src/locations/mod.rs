//! Transmission locations: raw samples, the consensus position of a reporting
//! point, and the rules by which the one is derived from the others.

pub mod decimal;
pub mod json;
pub mod laws;

use crate::binary64::{unit_exponent, Binary64};
use crate::locations::decimal::{is_decimal, is_decimal_text};
use crate::locations::json::{json_object, json_parse, members, parse, set_member, takes_members};
use vstd::arithmetic::power2::pow2;
use vstd::prelude::*;
use vstd::string::{StringExecFns, StringSliceAdditionalSpecFns};

verus! {

/// Version of the schema in which locations are sent out.
pub const SCHEMA: &'static str = "3";

/// Maximum distance in meters between a raw sample and the centroid of its group.
pub const SANE_INTERPOLATION_DISTANCE: i32 = 50;

/// Mean earth radius in meters, by which distances between positions are measured.
pub const MEAN_EARTH_RADIUS: u32 = 6_371_000;

/// Name of the database constraint that keeps region and reporting point unique.
pub const REGION_POSITION_UNIQUE_CONSTRAINT: &'static str = "unique_region_position";

/// The position of a reporting point, inferred over many measurements.
#[derive(Debug, Clone, Copy, PartialEq, Eq, Structural)]
pub struct TransmissionLocation {
    /// Primary key
    pub id: i64,
    /// ID of the region where the telegram was transmitted
    pub region: i64,
    /// Reporting point inside the telegram
    pub reporting_point: i32,
    /// Latitude in degrees
    pub lat: Binary64,
    /// Longitude in degrees
    pub lon: Binary64,
    /// The position comes from absolute data, and inference must leave it alone
    pub ground_truth: bool,
}

/// A [`TransmissionLocation`] on its way into the database.
#[derive(Debug, Clone, Copy, PartialEq, Eq, Structural)]
pub struct InsertTransmissionLocation {
    /// Primary key; `None` lets the database number the row
    pub id: Option<i64>,
    /// ID of the region where the telegram was transmitted
    pub region: i64,
    /// Reporting point inside the telegram
    pub reporting_point: i32,
    /// Latitude in degrees
    pub lat: Binary64,
    /// Longitude in degrees
    pub lon: Binary64,
    /// The position comes from absolute data, and inference must leave it alone
    pub ground_truth: bool,
}

/// The position of a reporting point as one measurement run saw it.
#[derive(Debug, Clone, Copy, PartialEq, Eq, Structural)]
pub struct TransmissionLocationRaw {
    /// Primary key
    pub id: i64,
    /// ID of the region where the telegram was transmitted
    pub region: i64,
    /// Reporting point inside the telegram
    pub reporting_point: i32,
    /// Latitude in degrees
    pub lat: Binary64,
    /// Longitude in degrees
    pub lon: Binary64,
    /// The measurement run from which the position was inferred, a UUID
    pub trekkie_run: u128,
    /// The user who owns that run, a UUID
    pub run_owner: u128,
}

/// A [`TransmissionLocationRaw`] on its way into the database.
#[derive(Debug, Clone, Copy, PartialEq, Eq, Structural)]
pub struct InsertTransmissionLocationRaw {
    /// Primary key; `None` lets the database number the row
    pub id: Option<i64>,
    /// ID of the region where the telegram was transmitted
    pub region: i64,
    /// Reporting point inside the telegram
    pub reporting_point: i32,
    /// Latitude in degrees
    pub lat: Binary64,
    /// Longitude in degrees
    pub lon: Binary64,
    /// The measurement run from which the position was inferred, a UUID
    pub trekkie_run: u128,
    /// The user who owns that run, a UUID
    pub run_owner: u128,
}

/// A transmission location as it is sent out, with room for extra properties.
#[derive(Debug)]
pub struct ApiTransmissionLocation {
    /// Latitude in degrees
    pub lat: Binary64,
    /// Longitude in degrees
    pub lon: Binary64,
    /// Any extra information, as long as it is valid JSON
    pub properties: serde_json::Value,
}

/// Why no consensus position could be derived.
#[derive(Debug, Clone, Copy, PartialEq, Eq, Structural)]
pub enum TransmissionLocaionError {
    /// No samples were given
    EmptyInput,
    /// The samples come from more than one region
    RegionMismatch,
    /// The samples belong to more than one reporting point
    ReportingPointMismatch,
    /// Every sample was an outlier
    NoMatches,
}

/// A distance that keeps a sample in its group: as a number it is strictly
/// below [`SANE_INTERPOLATION_DISTANCE`]. A NaN keeps nothing.
pub open spec fn within_sane_distance(distance: Binary64) -> bool {
    distance.is_below(SANE_INTERPOLATION_DISTANCE as int)
}

/// The samples that the outlier filter keeps, in their order: `samples[i]` stays
/// when `distances[i]` is within the sane distance. A sample that has no
/// distance is dropped.
pub open spec fn retained(
    samples: Seq<TransmissionLocationRaw>,
    distances: Seq<Binary64>,
) -> Seq<TransmissionLocationRaw>
    decreases samples.len(),
{
    if samples.len() == 0 {
        Seq::empty()
    } else {
        let last = samples.len() - 1;
        let before = retained(samples.take(last), distances);
        if last < distances.len() && within_sane_distance(distances[last]) {
            before.push(samples[last])
        } else {
            before
        }
    }
}

/// Every sample is of the region of the first.
pub open spec fn one_region(raw: Seq<TransmissionLocationRaw>) -> bool {
    forall|i: int| 0 <= i < raw.len() ==> (#[trigger] raw[i]).region == raw[0].region
}

/// Every sample is of the reporting point of the first.
pub open spec fn one_reporting_point(raw: Seq<TransmissionLocationRaw>) -> bool {
    forall|i: int|
        0 <= i < raw.len() ==> (#[trigger] raw[i]).reporting_point == raw[0].reporting_point
}

/// What the outlier filter returns for `samples`, of which `samples[i]` lies
/// `distances[i]` meters from their centroid.
pub open spec fn filtered(
    samples: Seq<TransmissionLocationRaw>,
    distances: Seq<Binary64>,
) -> Result<Seq<TransmissionLocationRaw>, TransmissionLocaionError> {
    if samples.len() == 0 {
        Err(TransmissionLocaionError::EmptyInput)
    } else if retained(samples, distances).len() == 0 {
        Err(TransmissionLocaionError::NoMatches)
    } else {
        Ok(retained(samples, distances))
    }
}

/// The consensus for `raw`, of which `raw[i]` lies `distances[i]` meters from
/// their centroid, and of which those that the filter keeps have their mean at
/// `lat`, `lon`.
pub open spec fn consensus(
    raw: Seq<TransmissionLocationRaw>,
    distances: Seq<Binary64>,
    lat: Binary64,
    lon: Binary64,
) -> Result<InsertTransmissionLocation, TransmissionLocaionError> {
    if raw.len() == 0 {
        Err(TransmissionLocaionError::EmptyInput)
    } else if !one_region(raw) {
        Err(TransmissionLocaionError::RegionMismatch)
    } else if !one_reporting_point(raw) {
        Err(TransmissionLocaionError::ReportingPointMismatch)
    } else if retained(raw, distances).len() == 0 {
        Err(TransmissionLocaionError::NoMatches)
    } else {
        Ok(
            InsertTransmissionLocation {
                id: None,
                region: raw[0].region,
                reporting_point: raw[0].reporting_point,
                lat,
                lon,
                ground_truth: false,
            },
        )
    }
}

impl InsertTransmissionLocation {
    /// The largest distance, exclusive, at which a raw sample still belongs to
    /// the cluster of its reporting point.
    pub fn max_sane_distance() -> (r: Binary64)
        ensures
            r.denotes(SANE_INTERPOLATION_DISTANCE as int),
            !r.sign(),
    {
        Binary64::from_i32(SANE_INTERPOLATION_DISTANCE)
    }

    /// Drops the outliers among the samples of one reporting point.
    ///
    /// `distances[i]` is the distance in meters of `input[i]` from the centroid
    /// of all of `input`, the mean of their latitudes and of their longitudes.
    /// The centroid is taken once: it is not moved after outliers have left.
    pub fn filter_outliers(input: Vec<TransmissionLocationRaw>, distances: &Vec<Binary64>) -> (res:
        Result<Vec<TransmissionLocationRaw>, TransmissionLocaionError>)
        ensures
            match filtered(input@, distances@) {
                Ok(kept) => res matches Ok(v) && v@ == kept,
                Err(e) => res == Err::<Vec<TransmissionLocationRaw>, TransmissionLocaionError>(e),
            },
    {
        if input.len() == 0 {
            return Err(TransmissionLocaionError::EmptyInput);
        }
        let limit = Self::max_sane_distance();
        let mut kept: Vec<TransmissionLocationRaw> = Vec::new();
        let mut i: usize = 0;
        while i < input.len()
            invariant
                i <= input.len(),
                limit.denotes(SANE_INTERPOLATION_DISTANCE as int),
                kept@ == retained(input@.take(i as int), distances@),
            decreases input.len() - i,
        {
            proof {
                assert(input@.take(i + 1).take(i as int) == input@.take(i as int));
                if i < distances.len() {
                    distances[i as int].lemma_lt_of_integer(
                        limit,
                        SANE_INTERPOLATION_DISTANCE as int,
                    );
                }
            }
            if i < distances.len() && distances[i].lt(limit) {
                kept.push(input[i]);
            }
            i += 1;
        }
        proof {
            assert(input@.take(i as int) == input@);
        }
        if kept.len() == 0 {
            return Err(TransmissionLocaionError::NoMatches);
        }
        Ok(kept)
    }

    /// Derives the position of a reporting point from all of its raw samples.
    ///
    /// The samples must be of one region and of one reporting point. Those
    /// further than [`SANE_INTERPOLATION_DISTANCE`] from the centroid are left
    /// out, and the mean of the others is the position.
    ///
    /// `distances` is what [`Self::filter_outliers`] takes, and `lat` and `lon`
    /// are the means of the latitudes and of the longitudes of the samples that
    /// it keeps. Where it keeps none, they are not looked at.
    pub fn try_from_raw(
        raw: Vec<TransmissionLocationRaw>,
        distances: &Vec<Binary64>,
        lat: Binary64,
        lon: Binary64,
    ) -> (res: Result<InsertTransmissionLocation, TransmissionLocaionError>)
        ensures
            res == consensus(raw@, distances@, lat, lon),
    {
        if raw.len() == 0 {
            return Err(TransmissionLocaionError::EmptyInput);
        }
        let region = raw[0].region;
        let reporting_point = raw[0].reporting_point;
        let mut other_reporting_point = false;
        let mut i: usize = 0;
        while i < raw.len()
            invariant
                i <= raw.len(),
                raw.len() > 0,
                region == raw[0].region,
                reporting_point == raw[0].reporting_point,
                one_region(raw@.take(i as int)),
                other_reporting_point == !one_reporting_point(raw@.take(i as int)),
            decreases raw.len() - i,
        {
            if raw[i].region != region {
                proof {
                    assert(!one_region(raw@));
                }
                return Err(TransmissionLocaionError::RegionMismatch);
            }
            if raw[i].reporting_point != reporting_point {
                other_reporting_point = true;
            }
            proof {
                let before = raw@.take(i as int);
                let after = raw@.take(i + 1);
                assert(after[0] == raw[0]);
                assert(i > 0 ==> before[0] == raw[0]);
                assert forall|j: int| 0 <= j < i implies after[j] == before[j] by {}
                assert(after[i as int] == raw[i as int]);
                if one_reporting_point(before) && raw[i as int].reporting_point == reporting_point {
                    assert(one_reporting_point(after));
                }
                if !one_reporting_point(before) {
                    let j = choose|j: int|
                        0 <= j < before.len() && (#[trigger] before[j]).reporting_point
                            != before[0].reporting_point;
                    assert(after[j].reporting_point != after[0].reporting_point);
                }
            }
            i += 1;
        }
        proof {
            assert(raw@.take(i as int) == raw@);
        }
        if other_reporting_point {
            return Err(TransmissionLocaionError::ReportingPointMismatch);
        }
        match Self::filter_outliers(raw, distances) {
            Ok(_) => Ok(
                InsertTransmissionLocation {
                    id: None,
                    region,
                    reporting_point,
                    lat,
                    lon,
                    ground_truth: false,
                },
            ),
            Err(e) => Err(e),
        }
    }
}

/// The property under which the projected coordinates are stored.
pub open spec fn epsg3857_key() -> Seq<char> {
    "epsg3857"@
}

/// The JSON text of a pair of projected coordinates, each given as a decimal.
pub open spec fn epsg3857_text(x: Seq<char>, y: Seq<char>) -> Seq<char> {
    "{ \"x\":"@ + x + ", \"y\":"@ + y + " }"@
}

/// `after` is what `before` becomes when `pair` is written into it: an object
/// with `pair` as its member `epsg3857`, whose other members are those of
/// `before`.
pub open spec fn epsg3857_stored(
    before: serde_json::Value,
    after: serde_json::Value,
    pair: serde_json::Value,
) -> bool {
    json_object(after) == Some(members(before).insert(epsg3857_key(), pair))
}

/// The coordinates can be encoded: each is a decimal numeral, and the text of
/// the pair is JSON.
pub open spec fn encodable(x: &str, y: &str) -> bool {
    &&& is_decimal(x.spec_bytes())
    &&& is_decimal(y.spec_bytes())
    &&& json_parse(epsg3857_text(x@, y@)) is Some
}

/// The latitude of the poles, in degrees: the projection has no place for them.
pub const POLE_LATITUDE: i32 = 90;

/// A position that the projection has a place for: both coordinates are
/// finite, and the latitude lies strictly between the poles.
pub open spec fn projectable(lat: Binary64, lon: Binary64) -> bool {
    &&& lat.spec_is_finite()
    &&& lon.spec_is_finite()
    &&& -POLE_LATITUDE * pow2(unit_exponent()) < lat.value()
    &&& lat.value() < POLE_LATITUDE * pow2(unit_exponent())
}

impl ApiTransmissionLocation {
    /// The position can be projected.
    pub fn is_projectable(&self) -> (res: bool)
        ensures
            res == projectable(self.lat, self.lon),
    {
        if !self.lat.is_finite() || !self.lon.is_finite() {
            return false;
        }
        let north = Binary64::from_i32(POLE_LATITUDE);
        let south = Binary64::from_i32(-POLE_LATITUDE);
        south.lt(self.lat) && self.lat.lt(north)
    }

    /// Stores projected coordinates that were encoded as a JSON value, under
    /// the property `epsg3857`; the other properties stay as they are.
    ///
    /// Nothing is written, and nothing is changed, where the encoding
    /// failed, where the position cannot be projected, and where the
    /// properties are neither an object nor null and so take no property.
    ///
    /// Returns whether the property was written.
    pub fn store_epsg3857(
        &mut self,
        encoded: Result<serde_json::Value, serde_json::Error>,
    ) -> (stored: bool)
        ensures
            final(self).lat == old(self).lat,
            final(self).lon == old(self).lon,
            stored == (projectable(old(self).lat, old(self).lon) && takes_members(
                old(self).properties,
            ) && encoded is Ok),
            stored ==> epsg3857_stored(
                old(self).properties,
                final(self).properties,
                encoded.unwrap(),
            ),
            !stored ==> final(self).properties == old(self).properties,
    {
        if !self.is_projectable() {
            return false;
        }
        if !(self.properties.is_object() || self.properties.is_null()) {
            return false;
        }
        match encoded {
            Ok(pair) => {
                set_member(&mut self.properties, "epsg3857", pair);
                true
            },
            Err(_) => false,
        }
    }

    /// Updates the property `epsg3857` with the projected coordinates `x` and
    /// `y` of the position, each given as a decimal: the property is created
    /// or overwritten, and the other properties stay as they are.
    ///
    /// The update is skipped, and nothing is changed, where the position
    /// cannot be projected, where the properties are neither an object nor
    /// null, and where the pair cannot be encoded as JSON: a coordinate that
    /// is not finite is written as no decimal.
    ///
    /// Returns whether the property was written.
    pub fn update_epsg3857(&mut self, x: &str, y: &str) -> (updated: bool)
        ensures
            final(self).lat == old(self).lat,
            final(self).lon == old(self).lon,
            updated == (projectable(old(self).lat, old(self).lon) && takes_members(
                old(self).properties,
            ) && encodable(x, y)),
            updated ==> epsg3857_stored(
                old(self).properties,
                final(self).properties,
                json_parse(epsg3857_text(x@, y@)).unwrap(),
            ),
            !updated ==> final(self).properties == old(self).properties,
    {
        if !is_decimal_text(x) || !is_decimal_text(y) {
            return false;
        }
        let text = epsg3857_json(x, y);
        let encoded = parse(text.as_str());
        self.store_epsg3857(encoded)
    }
}

/// Writes out [`epsg3857_text`].
fn epsg3857_json(x: &str, y: &str) -> (text: String)
    ensures
        text@ == epsg3857_text(x@, y@),
{
    let mut text = String::from_str("{ \"x\":");
    text.append(x);
    text.append(", \"y\":");
    text.append(y);
    text.append(" }");
    text
}

} // verus!
