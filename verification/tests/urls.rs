use free2pee::urls::{
    accessed_heading, directions_url, f2p_url, f2plocal_url, format_query, generate_route_url,
    generate_table_url, nearby_map_url, osm_element_url, query_url,
};

#[test]
fn test_points() {
    let pts = vec![
        (38.5448, -121.7523),
        (38.085731, -122.110744),
        (38.5412308, -121.7485762),
    ];

    for (lat, lon) in pts {
        let lat_text = lat.to_string();
        let lon_text = lon.to_string();
        let url = query_url(2000, &lat_text, &lon_text, "toilets");
        println!("{}", url);
        println!("{}", f2plocal_url(&lat_text, &lon_text));
    }
}

#[test]
fn query_url_for_toilets_around_davis() {
    let url = query_url(2000, "38.5448", "-121.7523", "toilets");
    assert_eq!(
        url,
        "https://overpass-api.de/api/interpreter?data=[out:json];(node[\"amenity\"=\"toilets\"](around:2000,38.5448,-121.7523);way[\"amenity\"=\"toilets\"](around:2000,38.5448,-121.7523););out body;out center;"
    );
}

#[test]
fn format_query_writes_negative_radius() {
    let query = format_query(-7, "1", "2", "drinking_water");
    assert_eq!(
        query,
        "[out:json];(node[\"amenity\"=\"drinking_water\"](around:-7,1,2);way[\"amenity\"=\"drinking_water\"](around:-7,1,2););out body;out center;"
    );
}

#[test]
fn route_url_writes_lon_before_lat() {
    let url = generate_route_url(
        ("52.517037", "13.388860"),
        vec![
            ("52.529407".to_string(), "13.397634".to_string()),
            ("52.523219".to_string(), "13.428555".to_string()),
        ],
    );
    assert_eq!(
        url,
        "https://routing.openstreetmap.de/routed-foot/route/v1/driving/13.388860,52.517037;13.397634,52.529407;13.428555,52.523219"
    );
}

#[test]
fn route_url_without_destinations() {
    let url = generate_route_url(("1.5", "2.5"), vec![]);
    assert_eq!(url, "https://routing.openstreetmap.de/routed-foot/route/v1/driving/2.5,1.5");
}

#[test]
fn table_url_asks_distances_from_the_first_point() {
    let url = generate_table_url(
        ("52.517037", "13.388860"),
        vec![
            ("52.529407".to_string(), "13.397634".to_string()),
            ("52.523219".to_string(), "13.428555".to_string()),
        ],
    );
    assert_eq!(
        url,
        "https://router.project-osrm.org/table/v1/driving/13.388860,52.517037;13.397634,52.529407;13.428555,52.523219?annotations=distance,duration&sources=0"
    );
}

#[test]
fn table_and_route_urls_list_the_same_points() {
    let dests = vec![("3".to_string(), "4".to_string()), ("5".to_string(), "6".to_string())];
    let route = generate_route_url(("1", "2"), dests.clone());
    let table = generate_table_url(("1", "2"), dests);
    let route_points = &route["https://routing.openstreetmap.de/routed-foot/route/v1/driving/".len()..];
    let expected = format!(
        "https://router.project-osrm.org/table/v1/driving/{}?annotations=distance,duration&sources=0",
        route_points
    );
    assert_eq!(table, expected);
}

#[test]
fn app_links() {
    assert_eq!(f2p_url("38.5", "-121.7"), "https://free2pee.github.io/free2pee/?lat=38.5&lon=-121.7");
    assert_eq!(f2plocal_url("38.5", "-121.7"), "https://127.0.0.1:8080/free2pee/?lat=38.5&lon=-121.7");
}

#[test]
fn element_and_map_links() {
    assert_eq!(osm_element_url("node", 123456789), "https://www.openstreetmap.org/node/123456789");
    assert_eq!(osm_element_url("way", -42), "https://www.openstreetmap.org/way/-42");
    assert_eq!(
        directions_url("38.54", "-121.75"),
        "https://www.google.com/maps/dir/?api=1&destination=38.54,-121.75"
    );
    assert_eq!(
        nearby_map_url("38.54", "121.75"),
        "https://mapcomplete.osm.be/toilets.html?z=18&lat=38.54&lon=-121.75"
    );
    assert_eq!(
        accessed_heading("10:15:00 AM", "38.54", "-121.75"),
        "Bathrooms accessed at 10:15:00 AM around 38.54,-121.75"
    );
}
