//! Finding the public bathrooms nearest to a location.
//!
//! The library holds what the app decides: which of the places that the
//! Overpass API reports are kept (those with coordinates, once per id), the
//! URLs of the Overpass, OSRM route and OSRM table services, the pairing of
//! places with the walking distances of a table, and the order in which they
//! are shown (nearest first, ties kept in the order they came).
//!
//! The response types are generic over the type `F` of their numbers
//! (coordinates, distances, durations): the library moves those numbers
//! around but never computes with them. Where a number has to appear in a URL,
//! the caller hands over its text.

pub mod model;
pub mod text;
pub mod urls;
pub mod search;
pub mod table;
