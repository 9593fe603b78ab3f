//! The URLs of the services the app asks, and the links it shows.
//!
//! Coordinates come as text: `(lat, lon)` pairs of the decimal texts that
//! the app writes for its numbers. OSRM wants each point as `lon,lat`.

use vstd::prelude::*;
use crate::text::{append_decimal_i64, decimal_text};

verus! {

/// A point as OSRM writes it in a URL: longitude, a comma, latitude.
pub open spec fn lon_lat(lat: Seq<char>, lon: Seq<char>) -> Seq<char> {
    lon + ","@ + lat
}

/// The points after the origin, each written `;lon,lat`, in order.
pub open spec fn destination_segments(destinations: Seq<(String, String)>) -> Seq<char>
    decreases destinations.len(),
{
    if destinations.len() == 0 {
        Seq::empty()
    } else {
        destination_segments(destinations.drop_last()) + ";"@ + lon_lat(
            destinations.last().0@,
            destinations.last().1@,
        )
    }
}

/// The start of every route URL.
pub open spec fn route_base() -> Seq<char> {
    "https://routing.openstreetmap.de/routed-foot/route/v1/driving/"@
}

/// The start of every table URL.
pub open spec fn table_base() -> Seq<char> {
    "https://router.project-osrm.org/table/v1/driving/"@
}

/// What every table URL asks for, after its points: distances and
/// durations, from the first point only.
pub open spec fn table_annotations() -> Seq<char> {
    "?annotations=distance,duration&sources=0"@
}

/// The URL of the walking route from `origin` through `destinations`.
pub open spec fn route_url(origin: (Seq<char>, Seq<char>), destinations: Seq<(String, String)>) -> Seq<char> {
    route_base() + lon_lat(origin.0, origin.1) + destination_segments(destinations)
}

/// The URL of the distance table from `origin` to each of `destinations`.
pub open spec fn table_url(origin: (Seq<char>, Seq<char>), destinations: Seq<(String, String)>) -> Seq<char> {
    table_base() + lon_lat(origin.0, origin.1) + destination_segments(destinations)
        + table_annotations()
}

/// Appends `;lon,lat` for each destination, in order.
fn append_destinations(url: &mut String, destinations: &Vec<(String, String)>)
    ensures
        final(url)@ == old(url)@ + destination_segments(destinations@),
{
    let ghost start = url@;
    let mut i: usize = 0;
    while i < destinations.len()
        invariant
            i <= destinations.len(),
            url@ == start + destination_segments(destinations@.take(i as int)),
        decreases destinations.len() - i,
    {
        let point = &destinations[i];
        url.append(";");
        url.append(point.1.as_str());
        url.append(",");
        url.append(point.0.as_str());
        assert(destinations@.take(i + 1).drop_last() == destinations@.take(i as int));
        i = i + 1;
    }
    assert(destinations@.take(destinations.len() as int) == destinations@);
}

/// The URL of the OSRM walking route that starts at `origin` and visits
/// `destinations` in order; each point is given as `(lat, lon)` text and
/// written `lon,lat`.
pub fn generate_route_url(origin: (&str, &str), destinations: Vec<(String, String)>) -> (url: String)
    ensures
        url@ == route_url((origin.0@, origin.1@), destinations@),
{
    let (lat, lon) = origin;
    let mut url = String::from_str("https://routing.openstreetmap.de/routed-foot/route/v1/driving/");
    url.append(lon);
    url.append(",");
    url.append(lat);
    append_destinations(&mut url, &destinations);
    url
}

/// The URL of the OSRM table of walking distances and durations from
/// `origin` to each of `destinations`; each point is given as `(lat, lon)`
/// text and written `lon,lat`.
pub fn generate_table_url(origin: (&str, &str), destinations: Vec<(String, String)>) -> (url: String)
    ensures
        url@ == table_url((origin.0@, origin.1@), destinations@),
{
    let (lat, lon) = origin;
    let mut url = String::from_str("https://router.project-osrm.org/table/v1/driving/");
    url.append(lon);
    url.append(",");
    url.append(lat);
    append_destinations(&mut url, &destinations);
    url.append("?annotations=distance,duration&sources=0");
    url
}

/// The Overpass QL query for the amenities `q` within `radius` meters of
/// `(lat, lon)`: nodes and ways, the ways with their centers.
pub open spec fn overpass_query(radius: i32, lat: Seq<char>, lon: Seq<char>, q: Seq<char>) -> Seq<char> {
    let around = decimal_text(radius as int) + ","@ + lat + ","@ + lon;
    "[out:json];(node[\"amenity\"=\""@ + q + "\"](around:"@ + around + ");way[\"amenity\"=\""@ + q
        + "\"](around:"@ + around + "););out body;out center;"@
}

/// The Overpass query URL: the query follows `?data=` as it is.
pub open spec fn overpass_url(radius: i32, lat: Seq<char>, lon: Seq<char>, q: Seq<char>) -> Seq<char> {
    "https://overpass-api.de/api/interpreter?data="@ + overpass_query(radius, lat, lon, q)
}

/// Appends `(around:radius,lat,lon)` without its brackets.
fn append_around(query: &mut String, radius: i32, lat: &str, lon: &str)
    ensures
        final(query)@ == old(query)@ + decimal_text(radius as int) + ","@ + lat@ + ","@ + lon@,
{
    append_decimal_i64(query, radius as i64);
    query.append(",");
    query.append(lat);
    query.append(",");
    query.append(lon);
}

/// Appends the Overpass QL query for the amenities `q` within `radius`
/// meters of `(lat, lon)`.
fn append_query(out: &mut String, radius: i32, lat: &str, lon: &str, q: &str)
    ensures
        final(out)@ == old(out)@ + overpass_query(radius, lat@, lon@, q@),
{
    out.append("[out:json];(node[\"amenity\"=\"");
    out.append(q);
    out.append("\"](around:");
    append_around(out, radius, lat, lon);
    out.append(");way[\"amenity\"=\"");
    out.append(q);
    out.append("\"](around:");
    append_around(out, radius, lat, lon);
    out.append("););out body;out center;");
}

/// The Overpass QL query for the amenities `q` (such as `toilets`) within
/// `radius` meters of `(lat, lon)`: the nodes and the ways so tagged, the
/// ways with their centers.
pub fn format_query(radius: i32, lat: &str, lon: &str, q: &str) -> (query: String)
    ensures
        query@ == overpass_query(radius, lat@, lon@, q@),
{
    let mut query = String::new();
    append_query(&mut query, radius, lat, lon, q);
    query
}

/// The Overpass API URL that runs `format_query(radius, lat, lon, q)`.
pub fn query_url(radius: i32, lat: &str, lon: &str, q: &str) -> (url: String)
    ensures
        url@ == overpass_url(radius, lat@, lon@, q@),
{
    let mut url = String::from_str("https://overpass-api.de/api/interpreter?data=");
    append_query(&mut url, radius, lat, lon, q);
    url
}

/// `base`, then `lat=` the latitude, `&lon=` the longitude.
pub open spec fn lat_lon_query(base: Seq<char>, lat: Seq<char>, lon: Seq<char>) -> Seq<char> {
    base + lat + "&lon="@ + lon
}

/// The link to the published app, centered on `(lat, lon)`.
pub fn f2p_url(lat: &str, lon: &str) -> (url: String)
    ensures
        url@ == lat_lon_query("https://free2pee.github.io/free2pee/?lat="@, lat@, lon@),
{
    let mut url = String::from_str("https://free2pee.github.io/free2pee/?lat=");
    url.append(lat);
    url.append("&lon=");
    url.append(lon);
    url
}

/// The link to a locally served app, centered on `(lat, lon)`.
pub fn f2plocal_url(lat: &str, lon: &str) -> (url: String)
    ensures
        url@ == lat_lon_query("https://127.0.0.1:8080/free2pee/?lat="@, lat@, lon@),
{
    let mut url = String::from_str("https://127.0.0.1:8080/free2pee/?lat=");
    url.append(lat);
    url.append("&lon=");
    url.append(lon);
    url
}

/// The OpenStreetMap page of the element of kind `type_field` (`node`,
/// `way`) and number `id`.
pub fn osm_element_url(type_field: &str, id: i64) -> (url: String)
    ensures
        url@ == "https://www.openstreetmap.org/"@ + type_field@ + "/"@ + decimal_text(id as int),
{
    let mut url = String::from_str("https://www.openstreetmap.org/");
    url.append(type_field);
    url.append("/");
    append_decimal_i64(&mut url, id);
    url
}

/// The Google Maps directions to `(lat, lon)` from wherever the user is.
pub fn directions_url(lat: &str, lon: &str) -> (url: String)
    ensures
        url@ == "https://www.google.com/maps/dir/?api=1&destination="@ + lat@ + ","@ + lon@,
{
    let mut url = String::from_str("https://www.google.com/maps/dir/?api=1&destination=");
    url.append(lat);
    url.append(",");
    url.append(lon);
    url
}

/// The MapComplete map of toilets around `(lat, lon)`. The longitude is
/// written after `lon=-`, as the app has always linked it.
pub fn nearby_map_url(lat: &str, lon: &str) -> (url: String)
    ensures
        url@ == lat_lon_query("https://mapcomplete.osm.be/toilets.html?z=18&lat="@, lat@, "-"@ + lon@),
{
    let mut url = String::from_str("https://mapcomplete.osm.be/toilets.html?z=18&lat=");
    url.append(lat);
    url.append("&lon=-");
    url.append(lon);
    proof {
        reveal_strlit("&lon=-");
        reveal_strlit("&lon=");
        reveal_strlit("-");
        assert("&lon=-"@ == "&lon="@ + "-"@);
    }
    url
}

/// The heading over the table: when the bathrooms were looked up, and around
/// which point.
pub fn accessed_heading(date: &str, lat: &str, lon: &str) -> (heading: String)
    ensures
        heading@ == "Bathrooms accessed at "@ + date@ + " around "@ + lat@ + ","@ + lon@,
{
    let mut heading = String::from_str("Bathrooms accessed at ");
    heading.append(date);
    heading.append(" around ");
    heading.append(lat);
    heading.append(",");
    heading.append(lon);
    heading
}

/// The route URL and the table URL list the same points in the same way:
/// past their bases, a table URL is the route URL's points followed by the
/// request for distances and durations from the first point.
pub proof fn law_route_and_table_list_same_points(
    origin: (Seq<char>, Seq<char>),
    destinations: Seq<(String, String)>,
)
    ensures
        table_url(origin, destinations) == table_base() + route_url(origin, destinations).skip(
            route_base().len() as int,
        ) + table_annotations(),
{
    let points = lon_lat(origin.0, origin.1) + destination_segments(destinations);
    assert(route_url(origin, destinations) == route_base() + points);
    assert((route_base() + points).skip(route_base().len() as int) == points);
}

/// A single destination is written `;` then its longitude, a comma and its
/// latitude, each as given.
pub proof fn law_destination_segment_of_one(lat: String, lon: String)
    ensures
        destination_segments(seq![(lat, lon)]) == ";"@ + lon@ + ","@ + lat@,
{
    let d = seq![(lat, lon)];
    assert(d.drop_last() == Seq::<(String, String)>::empty());
    assert(destination_segments(d.drop_last()) == Seq::<char>::empty());
}

/// The destinations of `a + b` are written as those of `a`, then those of
/// `b`: each destination is written on its own, in order.
pub proof fn law_destination_segments_concat(a: Seq<(String, String)>, b: Seq<(String, String)>)
    ensures
        destination_segments(a + b) == destination_segments(a) + destination_segments(b),
    decreases b.len(),
{
    if b.len() == 0 {
        assert(a + b == a);
        assert(destination_segments(b) == Seq::<char>::empty());
    } else {
        law_destination_segments_concat(a, b.drop_last());
        assert((a + b).drop_last() == a + b.drop_last());
        assert((a + b).last() == b.last());
    }
}

/// A route URL is the route service's address, the origin's longitude and
/// latitude texts as given (longitude first, separated by a comma), then
/// the destinations.
pub proof fn law_route_url_text(origin: (Seq<char>, Seq<char>), destinations: Seq<(String, String)>)
    ensures
        route_url(origin, destinations) == "https://routing.openstreetmap.de/routed-foot/route/v1/driving/"@
            + origin.1 + ","@ + origin.0 + destination_segments(destinations),
{
}

/// A table URL is the table service's address, the origin's longitude and
/// latitude texts as given, the destinations, then the request for
/// distances and durations from the first point.
pub proof fn law_table_url_text(origin: (Seq<char>, Seq<char>), destinations: Seq<(String, String)>)
    ensures
        table_url(origin, destinations) == "https://router.project-osrm.org/table/v1/driving/"@
            + origin.1 + ","@ + origin.0 + destination_segments(destinations)
            + "?annotations=distance,duration&sources=0"@,
{
}

/// The query asks, for nodes and then for ways tagged `amenity=q`, for
/// those `(around:radius,lat,lon)`: the radius written is the radius asked
/// for, in decimal, and the point's texts are as given.
pub proof fn law_query_asks_for_radius_around_point(
    radius: i32,
    lat: Seq<char>,
    lon: Seq<char>,
    q: Seq<char>,
)
    ensures
        ({
            let around = "(around:"@ + decimal_text(radius as int) + ","@ + lat + ","@ + lon + ")"@;
            let nodes = "[out:json];(node[\"amenity\"=\""@ + q + "\"]"@;
            let ways = ";way[\"amenity\"=\""@ + q + "\"]"@;
            let tail = ";);out body;out center;"@;
            &&& overpass_query(radius, lat, lon, q) == nodes + around + ways + around + tail
            &&& overpass_url(radius, lat, lon, q) == "https://overpass-api.de/api/interpreter?data="@
                + nodes + around + ways + around + tail
        }),
{
    reveal_strlit("(around:");
    reveal_strlit(",");
    reveal_strlit(")");
    reveal_strlit("[out:json];(node[\"amenity\"=\"");
    reveal_strlit("\"]");
    reveal_strlit(";way[\"amenity\"=\"");
    reveal_strlit(";);out body;out center;");
    reveal_strlit("\"](around:");
    reveal_strlit(");way[\"amenity\"=\"");
    reveal_strlit("););out body;out center;");
    let d = decimal_text(radius as int);
    let around = "(around:"@ + d + ","@ + lat + ","@ + lon + ")"@;
    let nodes = "[out:json];(node[\"amenity\"=\""@ + q + "\"]"@;
    let ways = ";way[\"amenity\"=\""@ + q + "\"]"@;
    let tail = ";);out body;out center;"@;
    assert("\"](around:"@ =~= "\"]"@ + "(around:"@);
    assert(");way[\"amenity\"=\""@ =~= ")"@ + ";way[\"amenity\"=\""@);
    assert("););out body;out center;"@ =~= ")"@ + ";);out body;out center;"@);
    assert(overpass_query(radius, lat, lon, q) =~= nodes + around + ways + around + tail);
}

/// A link with a point: `base`, the latitude text, `&lon=`, the longitude
/// text, each as given.
pub proof fn law_lat_lon_query_text(base: Seq<char>, lat: Seq<char>, lon: Seq<char>)
    ensures
        lat_lon_query(base, lat, lon).subrange(0, base.len() as int) == base,
        lat_lon_query(base, lat, lon).subrange(base.len() as int, (base.len() + lat.len()) as int) == lat,
        lat_lon_query(base, lat, lon).skip((base.len() + lat.len() + 5) as int) == lon,
        lat_lon_query(base, lat, lon).len() == base.len() + lat.len() + 5 + lon.len(),
{
    reveal_strlit("&lon=");
    let t = lat_lon_query(base, lat, lon);
    assert(t.subrange(0, base.len() as int) =~= base);
    assert(t.subrange(base.len() as int, (base.len() + lat.len()) as int) =~= lat);
    assert(t.skip((base.len() + lat.len() + 5) as int) =~= lon);
}

} // verus!
