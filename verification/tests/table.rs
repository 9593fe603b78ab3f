use free2pee::model::{BathroomError, Leg, OSRMLocation, Route, RouteRoot, TableRoot};
use free2pee::table::{bathroom_rows, sort_by_distance};
use free2pee::model::extract_distances;

fn location() -> OSRMLocation<f64> {
    OSRMLocation { hint: String::new(), distance: 0.0, name: String::new(), location: vec![0.0, 0.0] }
}

fn table(row: Vec<f64>) -> TableRoot<f64> {
    TableRoot {
        code: "Ok".to_string(),
        distances: vec![row.clone()],
        destinations: vec![location(); row.len()],
        durations: vec![row],
        sources: vec![location()],
    }
}

#[test]
fn rows_skip_the_origin_column() {
    let rows = bathroom_rows(vec!["a", "b", "c"], &table(vec![0.0, 30.5, 10.0, 20.25]));
    assert_eq!(rows, vec![("a", 30.5), ("b", 10.0), ("c", 20.25)]);
}

#[test]
fn rows_of_no_places() {
    let rows: Vec<(&str, f64)> = bathroom_rows(vec![], &table(vec![0.0]));
    assert!(rows.is_empty());
}

#[test]
fn sort_puts_nearest_first_and_keeps_ties_in_order() {
    let rows = vec![("a", 30u64), ("b", 10), ("c", 20), ("d", 10), ("e", 30), ("f", 0)];
    let sorted = sort_by_distance(rows);
    assert_eq!(sorted, vec![("f", 0), ("b", 10), ("d", 10), ("c", 20), ("a", 30), ("e", 30)]);
}

#[test]
fn sort_of_sorted_and_empty() {
    assert_eq!(sort_by_distance(vec![(1, 1u64), (2, 2), (3, 3)]), vec![(1, 1), (2, 2), (3, 3)]);
    assert_eq!(sort_by_distance(Vec::<(i32, u64)>::new()), vec![]);
    assert_eq!(sort_by_distance(vec![(3, 5u64), (2, 4), (1, 3)]), vec![(1, 3), (2, 4), (3, 5)]);
}

fn leg(distance: f64) -> Leg<f64> {
    Leg { distance, duration: distance / 1.4, steps: vec![], summary: String::new(), weight: distance }
}

#[test]
fn distances_of_the_first_route() {
    let route = |legs: Vec<Leg<f64>>| Route {
        distance: legs.iter().map(|l| l.distance).sum(),
        duration: 0.0,
        geometry: String::new(),
        legs,
        weight: 0.0,
        weight_name: "duration".to_string(),
    };
    let json = RouteRoot {
        code: "Ok".to_string(),
        routes: vec![route(vec![leg(120.0), leg(45.5)]), route(vec![leg(1.0)])],
        waypoints: vec![],
    };
    assert_eq!(extract_distances(&json), vec![120.0, 45.5]);
}

#[test]
fn error_message() {
    assert_eq!(
        BathroomError::FetchBathroomsFailed.message(),
        "Failed to fetch bathrooms. Please ensure that location services are enabled for device and browser."
    );
}
