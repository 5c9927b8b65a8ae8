//! A web-analytics beacon: tracking-pixel responses, visit extraction from
//! requests, and geo enrichment of the client address.
pub mod beacon;
pub mod geo;
pub mod mmdb;
pub mod pixel;
pub mod request;

pub use beacon::{Beacon, BeaconOutcome, VisitRecord};
pub use geo::{ConfigError, GeoInfo, GeoResolver, Location, Place};
pub use pixel::{index, missing_url_response, pixel_response, HttpResponse};
pub use request::{
    extract_visit, header_value, query_value, user_agent, ClientAddress, EventKind, IpAddress,
    Request, RequestError, VisitFields,
};
