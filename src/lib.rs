//! A location-to-weather aggregation service, as a verified library.
//!
//! The library holds the decisions of the service: how an inbound query is
//! resolved, how geocoding results become ranked locations, how the forecast
//! fetches are joined, and how an outcome becomes an HTTP reply. Network I/O,
//! JSON and query-string codecs, and the concurrent runtime stay with the
//! caller, which hands the library plain values.

pub mod aggregate;
pub mod failure;
pub mod location;
pub mod query;
pub mod response;
pub mod weather;
