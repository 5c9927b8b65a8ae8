//! The per-request pipeline shared by the tracking endpoints: extract the
//! visit, resolve the client address, and answer with the pixel.
use crate::geo::{city_records, opens_as_database, ConfigError, GeoInfo, GeoResolver};
use crate::mmdb::database_ok;
use crate::pixel::{
    is_missing_url_response, is_pixel_response, missing_url_response, pixel_response,
    HttpResponse,
};
use crate::request::{
    extract_visit, fields_match, first_value, opt_view, EventKind, IpAddress, Request,
    VisitFields,
};
use vstd::prelude::*;

verus! {

/// One visit, ready for the record sink.
#[derive(Clone, Debug, PartialEq, Eq)]
pub struct VisitRecord {
    pub visit: VisitFields,
    /// What the database records of the client address, if anything.
    pub geo: Option<GeoInfo>,
}

/// What handling a request produces: the response to send, and the record to
/// hand to the sink, if the request is recorded.
#[derive(Clone, Debug, PartialEq, Eq)]
pub struct BeaconOutcome {
    pub response: HttpResponse,
    pub record: Option<VisitRecord>,
}

/// The geo info for `ip` in `records`, or none.
pub open spec fn geo_for(records: Map<IpAddress, GeoInfo>, ip: IpAddress) -> Option<GeoInfo> {
    if records.contains_key(ip) {
        Some(records[ip])
    } else {
        None
    }
}

pub open spec fn record_matches(
    v: VisitRecord,
    records: Map<IpAddress, GeoInfo>,
    kind: EventKind,
    req: Request,
) -> bool {
    fields_match(v.visit, kind, req) && v.geo == geo_for(records, req.peer.ip)
}

/// The outcome owed for `req` on endpoint `kind`: with a `url` parameter, the
/// pixel and one record; without it, a client error and no record.
pub open spec fn outcome_matches(
    o: BeaconOutcome,
    records: Map<IpAddress, GeoInfo>,
    kind: EventKind,
    req: Request,
) -> bool {
    if first_value(req.query@, "url"@) is Some {
        &&& is_pixel_response(o.response)
        &&& (o.record matches Some(v) && record_matches(v, records, kind, req))
    } else {
        is_missing_url_response(o.response) && o.record is None
    }
}

/// Handles tracking requests against one geo database, which it only reads.
pub struct Beacon {
    pub resolver: GeoResolver,
}

impl Beacon {
    pub fn new(resolver: GeoResolver) -> (r: Beacon)
        ensures
            r.resolver.records() == resolver.records(),
    {
        Beacon { resolver }
    }

    /// Starts the beacon from what reading the database file gave: `None`
    /// where the file could not be read. Either failure stops startup.
    pub fn start(contents: Option<Vec<u8>>) -> (r: Result<Beacon, ConfigError>)
        ensures
            contents is None ==> (r matches Err(e) && e == ConfigError::Unreadable),
            contents matches Some(b) ==> (r is Ok <==> database_ok(b@) && opens_as_database(b@)),
            contents is Some ==> (r matches Err(e) ==> e == ConfigError::InvalidDatabase),
            contents matches Some(b) ==> (r matches Ok(beacon) ==> beacon.resolver.records()
                == city_records(b@)),
    {
        match contents {
            None => Err(ConfigError::Unreadable),
            Some(bytes) => match GeoResolver::from_bytes(bytes) {
                Ok(resolver) => Ok(Beacon { resolver }),
                Err(e) => Err(e),
            },
        }
    }

    /// Handles one request on endpoint `kind`. Geo resolution never fails
    /// the request: a miss leaves the record's `geo` absent.
    pub fn handle(&self, kind: EventKind, req: &Request) -> (r: BeaconOutcome)
        ensures
            outcome_matches(r, self.resolver.records(), kind, *req),
    {
        match extract_visit(req, kind) {
            Ok(visit) => {
                let geo = self.resolver.resolve(visit.client_address.ip);
                BeaconOutcome {
                    response: pixel_response(),
                    record: Some(VisitRecord { visit, geo }),
                }
            },
            Err(_) => BeaconOutcome { response: missing_url_response(), record: None },
        }
    }
}

/// Two responses that send the same status, headers and body.
pub open spec fn same_response(a: HttpResponse, b: HttpResponse) -> bool {
    &&& a.status == b.status
    &&& a.content_type@ == b.content_type@
    &&& opt_view(a.cache_control) == opt_view(b.cache_control)
    &&& a.body@ == b.body@
}

/// Two records that carry the same visit and the same geo info.
pub open spec fn same_record(a: VisitRecord, b: VisitRecord) -> bool {
    &&& a.visit.kind == b.visit.kind
    &&& a.visit.url@ == b.visit.url@
    &&& opt_view(a.visit.referrer) == opt_view(b.visit.referrer)
    &&& opt_view(a.visit.is_bot) == opt_view(b.visit.is_bot)
    &&& opt_view(a.visit.user_agent) == opt_view(b.visit.user_agent)
    &&& a.visit.client_address == b.visit.client_address
    &&& a.geo == b.geo
}

/// The same tracking request handled twice against the same database gives
/// two identical pixel responses and two records, one for each handling,
/// that carry the same visit: nothing of the first handling reaches the
/// second.
pub proof fn lemma_repeated_request(
    first: BeaconOutcome,
    second: BeaconOutcome,
    records: Map<IpAddress, GeoInfo>,
    kind: EventKind,
    req: Request,
)
    requires
        first_value(req.query@, "url"@) is Some,
        outcome_matches(first, records, kind, req),
        outcome_matches(second, records, kind, req),
    ensures
        is_pixel_response(first.response),
        same_response(first.response, second.response),
        (first.record matches Some(a) && (second.record matches Some(b) && same_record(a, b))),
{
}

} // verus!
