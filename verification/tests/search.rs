use std::collections::HashMap;

use free2pee::model::{Center, Element, Osm3s, OverpassResponse};
use free2pee::search::{resolve_search, search_radius, select_destinations};

fn element(id: i64, lat: Option<f64>, lon: Option<f64>, center: Option<(f64, f64)>) -> Element<f64> {
    let mut tags = HashMap::new();
    tags.insert("amenity".to_string(), "toilets".to_string());
    Element {
        id,
        lat,
        lon,
        tags,
        type_field: if center.is_some() { "way".to_string() } else { "node".to_string() },
        nodes: None,
        center: center.map(|(lat, lon)| Center { lat, lon }),
    }
}

fn response(elements: Vec<Element<f64>>) -> OverpassResponse<f64> {
    OverpassResponse {
        elements,
        generator: "Overpass API".to_string(),
        osm3s: Osm3s { copyright: "ODbL".to_string(), timestamp_osm_base: "2023-07-01T00:00:00Z".to_string() },
        version: 0.6,
    }
}

#[test]
fn radius_defaults_to_2000() {
    assert_eq!(search_radius(None), 2000);
    assert_eq!(search_radius(Some("500")), 500);
    assert_eq!(search_radius(Some("far")), 2000);
    assert_eq!(search_radius(Some("-1")), 2000);
    assert_eq!(search_radius(Some("")), 2000);
}

#[test]
fn search_uses_page_parameters_over_position() {
    let s = resolve_search((38.5, -121.7), Some("1000"), Some(40.0), None, Some("drinking_water".to_string()));
    assert_eq!(s, (1000, 40.0, -121.7, "drinking_water".to_string()));
}

#[test]
fn search_defaults() {
    let s = resolve_search((38.5, -121.7), None, None, None, None);
    assert_eq!(s, (2000, 38.5, -121.7, "toilets".to_string()));
}

#[test]
fn coordinates_prefer_the_element_own() {
    assert_eq!(element(1, Some(1.0), Some(2.0), Some((3.0, 4.0))).get_coords(), Some((1.0, 2.0)));
    assert_eq!(element(1, None, None, Some((3.0, 4.0))).get_coords(), Some((3.0, 4.0)));
    assert_eq!(element(1, Some(1.0), None, Some((3.0, 4.0))).get_coords(), Some((3.0, 4.0)));
    assert_eq!(element(1, None, Some(2.0), None).get_coords(), None);
    assert_eq!(element(1, None, None, None).get_coords(), None);
}

#[test]
fn selection_keeps_located_first_of_each_id() {
    let r = response(vec![
        element(10, None, None, None),
        element(11, Some(1.0), Some(2.0), None),
        element(12, None, None, Some((3.0, 4.0))),
        element(11, Some(5.0), Some(6.0), None),
        element(10, Some(7.0), Some(8.0), None),
        element(13, Some(9.0), None, None),
    ]);
    let (kept, destinations) = select_destinations(r);
    let ids: Vec<i64> = kept.iter().map(|e| e.id).collect();
    assert_eq!(ids, vec![11, 12, 10]);
    assert_eq!(destinations, vec![(1.0, 2.0), (3.0, 4.0), (7.0, 8.0)]);
}

#[test]
fn selection_of_nothing() {
    let (kept, destinations) = select_destinations(response(vec![]));
    assert!(kept.is_empty());
    assert!(destinations.is_empty());
}
