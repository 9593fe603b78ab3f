//! The responses of the Overpass and OSRM services, and what is read from them.

use std::collections::HashMap;
use vstd::prelude::*;

verus! {

/// A JSON value that the library carries along without looking into it.
#[verifier::external_type_specification]
#[verifier::external_body]
pub struct ExJsonValue(serde_json::Value);

/// The answer of the Overpass API to a query for amenities.
#[derive(Clone, Debug)]
pub struct OverpassResponse<F> {
    pub elements: Vec<Element<F>>,
    pub generator: String,
    pub osm3s: Osm3s,
    pub version: F,
}

/// An OpenStreetMap node or way. A node has `lat` and `lon`; a way that was
/// asked for with `out center` has a `center`.
#[derive(Clone, Debug)]
pub struct Element<F> {
    pub id: i64,
    pub lat: Option<F>,
    pub lon: Option<F>,
    pub tags: HashMap<String, String>,
    pub type_field: String,
    pub nodes: Option<Vec<i64>>,
    pub center: Option<Center<F>>,
}

/// The center of a way.
#[derive(Clone, Copy, Debug)]
pub struct Center<F> {
    pub lat: F,
    pub lon: F,
}

/// Where the Overpass data comes from.
#[derive(Clone, Debug)]
pub struct Osm3s {
    pub copyright: String,
    pub timestamp_osm_base: String,
}

/// What went wrong while looking for bathrooms.
#[derive(Clone, Copy, Debug, PartialEq, Eq, Structural)]
pub enum BathroomError {
    FetchBathroomsFailed,
}

/// The answer of the OSRM route service.
#[derive(Clone, Debug)]
pub struct RouteRoot<F> {
    pub code: String,
    pub routes: Vec<Route<F>>,
    pub waypoints: Vec<Waypoint<F>>,
}

/// One route through the requested points.
#[derive(Clone, Debug)]
pub struct Route<F> {
    pub distance: F,
    pub duration: F,
    pub geometry: String,
    pub legs: Vec<Leg<F>>,
    pub weight: F,
    pub weight_name: String,
}

/// The part of a route between two consecutive points.
#[derive(Clone, Debug)]
pub struct Leg<F> {
    pub distance: F,
    pub duration: F,
    pub steps: Vec<serde_json::Value>,
    pub summary: String,
    pub weight: F,
}

/// A requested point, snapped to the street network.
#[derive(Clone, Debug)]
pub struct Waypoint<F> {
    pub distance: F,
    pub hint: String,
    pub location: Vec<F>,
    pub name: String,
}

/// The answer of the OSRM table service: `distances[i][j]` is the distance
/// from source `i` to destination `j`.
#[derive(Clone, Debug)]
pub struct TableRoot<F> {
    pub code: String,
    pub distances: Vec<Vec<F>>,
    pub destinations: Vec<OSRMLocation<F>>,
    pub durations: Vec<Vec<F>>,
    pub sources: Vec<OSRMLocation<F>>,
}

/// A source or destination of a table, snapped to the street network.
#[derive(Clone, Debug)]
pub struct OSRMLocation<F> {
    pub hint: String,
    pub distance: F,
    pub name: String,
    pub location: Vec<F>,
}

/// The coordinates of an element as `(lat, lon)`: its own when it has both,
/// else those of its center, else none.
pub open spec fn element_coords<F>(e: Element<F>) -> Option<(F, F)> {
    if e.lat is Some && e.lon is Some {
        Some((e.lat->0, e.lon->0))
    } else if e.center is Some {
        Some((e.center->0.lat, e.center->0.lon))
    } else {
        None
    }
}

impl<F: Copy> Element<F> {
    /// The coordinates of the element, `(lat, lon)`: its own latitude and
    /// longitude where it has both, else those of its center, else `None`.
    pub fn get_coords(&self) -> (res: Option<(F, F)>)
        ensures
            res == element_coords(*self),
    {
        if let (Some(lat), Some(lon)) = (self.lat, self.lon) {
            Some((lat, lon))
        } else if let Some(center) = &self.center {
            Some((center.lat, center.lon))
        } else {
            None
        }
    }
}

impl BathroomError {
    /// The message shown to the user for this error.
    pub fn message(&self) -> (res: String)
        ensures
            res@ == bathroom_error_message(*self),
    {
        match self {
            BathroomError::FetchBathroomsFailed => String::from_str(
                "Failed to fetch bathrooms. Please ensure that location services are enabled for device and browser.",
            ),
        }
    }
}

/// The message of each error.
pub open spec fn bathroom_error_message(e: BathroomError) -> Seq<char> {
    match e {
        BathroomError::FetchBathroomsFailed =>
            "Failed to fetch bathrooms. Please ensure that location services are enabled for device and browser."@,
    }
}

/// The distance of each leg of a route.
pub open spec fn leg_distances<F>(legs: Seq<Leg<F>>) -> Seq<F> {
    legs.map_values(|leg: Leg<F>| leg.distance)
}

/// The distances of the legs of the first route of `json`, in order: with
/// one origin and several destinations, the distance walked to each
/// destination from the one before it.
pub fn extract_distances<F: Copy>(json: &RouteRoot<F>) -> (distances: Vec<F>)
    requires
        json.routes.len() > 0,
    ensures
        distances@ == leg_distances(json.routes[0].legs@),
{
    let legs = &json.routes[0].legs;
    let mut distances: Vec<F> = Vec::new();
    let mut i: usize = 0;
    while i < legs.len()
        invariant
            i <= legs.len(),
            legs == json.routes[0].legs,
            distances@ == leg_distances(legs@.take(i as int)),
        decreases legs.len() - i,
    {
        distances.push(legs[i].distance);
        assert(legs@.take(i + 1) == legs@.take(i as int).push(legs@[i as int]));
        i = i + 1;
    }
    assert(legs@.take(legs.len() as int) == legs@);
    distances
}

/// An element's coordinates are its own latitude and longitude when it has
/// both, else its center's, else none.
pub proof fn law_element_coords<F>(e: Element<F>)
    ensures
        e.lat is Some && e.lon is Some ==> element_coords(e) == Some((e.lat->0, e.lon->0)),
        !(e.lat is Some && e.lon is Some) && e.center is Some ==> element_coords(e) == Some(
            (e.center->0.lat, e.center->0.lon),
        ),
        !(e.lat is Some && e.lon is Some) && e.center is None ==> element_coords(e) is None,
{
}

/// There is one distance per leg, and the `i`-th is the `distance` of the
/// `i`-th leg.
pub proof fn law_leg_distances<F>(legs: Seq<Leg<F>>)
    ensures
        leg_distances(legs).len() == legs.len(),
        forall|i: int| 0 <= i < legs.len() ==> #[trigger] leg_distances(legs)[i] == legs[i].distance,
{
}

/// The message of the only error asks to enable location services.
pub proof fn law_bathroom_error_message()
    ensures
        bathroom_error_message(BathroomError::FetchBathroomsFailed)
            == "Failed to fetch bathrooms. Please ensure that location services are enabled for device and browser."@,
{
}

} // verus!
