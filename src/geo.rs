//! Geo enrichment: a read-only MaxMind city database, and the lookup of a
//! client address in it.
use crate::mmdb::{check_database, database_ok};
use crate::request::IpAddress;
use maxminddb::geoip2;
use maxminddb::MaxMindDBError;
use maxminddb::Reader;
use vstd::prelude::*;

verus! {

#[verifier::external_type_specification]
#[verifier::external_body]
pub struct ExCity<'a>(geoip2::City<'a>);

#[verifier::external_type_specification]
#[verifier::external_body]
pub struct ExCityPlace<'a>(geoip2::city::City<'a>);

#[verifier::external_type_specification]
#[verifier::external_body]
pub struct ExCountry<'a>(geoip2::city::Country<'a>);

#[verifier::external_type_specification]
#[verifier::external_body]
pub struct ExSubdivision<'a>(geoip2::city::Subdivision<'a>);

#[verifier::external_type_specification]
#[verifier::external_body]
pub struct ExMaxMindDBError(MaxMindDBError);

/// A named place of a city record: its GeoNames id, ISO code, and its names
/// by language code.
#[derive(Clone, Debug, PartialEq, Eq)]
pub struct Place {
    pub geoname_id: Option<u32>,
    pub iso_code: Option<String>,
    pub names: Option<Vec<(String, String)>>,
}

/// Coordinates of a city record, as the decimal text of each degree value.
#[derive(Clone, Debug, PartialEq, Eq)]
pub struct Location {
    pub latitude: Option<String>,
    pub longitude: Option<String>,
}

/// What the database records of an address. Every part may be absent, and
/// stays absent: nothing is filled in with a default.
#[derive(Clone, Debug, PartialEq, Eq)]
pub struct GeoInfo {
    pub city: Option<Place>,
    pub country: Option<Place>,
    /// The subdivisions (regions), largest first.
    pub subdivisions: Option<Vec<Place>>,
    pub location: Option<Location>,
}

/// Why the geo database cannot be used: startup cannot go on.
#[derive(Clone, Copy, Debug, PartialEq, Eq, Structural)]
pub enum ConfigError {
    /// The database file could not be read.
    Unreadable,
    /// The bytes are not a MaxMind database.
    InvalidDatabase,
}

/// A MaxMind database loaded into memory. Verus cannot declare
/// maxminddb::Reader itself (its `AsRef<[u8]>` bound), so it is held here.
#[verifier::external_body]
pub struct CityDatabase {
    reader: Reader<Vec<u8>>,
}

/// The bytes a database was opened from.
pub uninterp spec fn database_bytes(db: CityDatabase) -> Seq<u8>;

/// maxminddb opens these bytes: their metadata decodes and its search tree
/// can be walked from the start.
pub uninterp spec fn opens_as_database(bytes: Seq<u8>) -> bool;

/// The city records that the database in `bytes` holds: the addresses whose
/// lookup finds a record that decodes as a city, each with what it decodes to.
pub uninterp spec fn city_records(bytes: Seq<u8>) -> Map<IpAddress, GeoInfo>;

/// Relies on maxminddb::Reader::from_source, which succeeds or fails on the
/// bytes alone and keeps them as the database's buffer. On bytes that pass
/// `database_ok` its reads stay inside the buffer, so it does not panic.
#[verifier::external_body]
fn database_from_source(bytes: Vec<u8>) -> (r: Result<CityDatabase, MaxMindDBError>)
    requires
        database_ok(bytes@),
    ensures
        r is Ok <==> opens_as_database(bytes@),
        r matches Ok(db) ==> database_bytes(db) == bytes@,
{
    Reader::from_source(bytes).map(|reader| CityDatabase { reader })
}

/// Relies on maxminddb::Reader::lookup for a city record: it finds a record
/// and decodes it, or fails (no record for the address, or one that does not
/// decode); it only reads the buffer, so the answer depends on the bytes and
/// the address alone. On bytes that pass `database_ok` every tree node and
/// data value it reads lies inside the buffer, so it does not panic.
#[verifier::external_body]
fn lookup_city(db: &CityDatabase, ip: IpAddress) -> (r: Result<GeoInfo, MaxMindDBError>)
    requires
        database_ok(database_bytes(*db)),
    ensures
        r matches Ok(g) ==> city_records(database_bytes(*db)).contains_key(ip)
            && city_records(database_bytes(*db))[ip] == g,
        r is Err ==> !city_records(database_bytes(*db)).contains_key(ip),
{
    let reader = &db.reader;
    let found = match ip {
        IpAddress::V4(octets) => reader.lookup::<geoip2::City>(octets.into()),
        IpAddress::V6(octets) => reader.lookup::<geoip2::City>(octets.into()),
    };
    found.map(geo_info_of)
}

/// Moves a decoded maxminddb::geoip2::City record into plain values, one
/// field for each of its city, country, subdivisions and coordinates.
#[verifier::external_body]
fn geo_info_of(c: geoip2::City<'_>) -> GeoInfo {
    GeoInfo {
        city: c.city.map(city_place),
        country: c.country.map(country_place),
        subdivisions: c.subdivisions.map(|v| v.into_iter().map(subdivision_place).collect()),
        location: c.location.map(|l| Location {
            latitude: l.latitude.map(|d| d.to_string()),
            longitude: l.longitude.map(|d| d.to_string()),
        }),
    }
}

/// Moves a maxminddb::geoip2::city::City (id and names; it has no ISO code)
/// into owned values, the names in the map's key order.
#[verifier::external_body]
fn city_place(p: geoip2::city::City<'_>) -> Place {
    Place {
        geoname_id: p.geoname_id,
        iso_code: None,
        names: p.names.map(|m| m.into_iter().map(|(k, v)| (k.to_string(), v.to_string())).collect()),
    }
}

/// Moves the id, ISO code and names of a maxminddb::geoip2::city::Country
/// into owned values, the names in the map's key order.
#[verifier::external_body]
fn country_place(p: geoip2::city::Country<'_>) -> Place {
    Place {
        geoname_id: p.geoname_id,
        iso_code: p.iso_code.map(|x| x.to_string()),
        names: p.names.map(|m| m.into_iter().map(|(k, v)| (k.to_string(), v.to_string())).collect()),
    }
}

/// Moves the id, ISO code and names of a maxminddb::geoip2::city::Subdivision
/// into owned values, the names in the map's key order.
#[verifier::external_body]
fn subdivision_place(p: geoip2::city::Subdivision<'_>) -> Place {
    Place {
        geoname_id: p.geoname_id,
        iso_code: p.iso_code.map(|x| x.to_string()),
        names: p.names.map(|m| m.into_iter().map(|(k, v)| (k.to_string(), v.to_string())).collect()),
    }
}

/// Resolves client addresses against a geo database that is read once and
/// never changed; lookups need no lock and keep no state.
pub struct GeoResolver {
    db: Option<CityDatabase>,
}

impl GeoResolver {
    /// Only a database whose bytes passed the structural check is held.
    #[verifier::type_invariant]
    spec fn inv(&self) -> bool {
        match self.db {
            Some(db) => database_ok(database_bytes(db)),
            None => true,
        }
    }

    /// The records this resolver answers from; none for the empty resolver.
    pub closed spec fn records(&self) -> Map<IpAddress, GeoInfo> {
        match self.db {
            Some(db) => city_records(database_bytes(db)),
            None => Map::empty(),
        }
    }

    /// A resolver over an empty database: every lookup finds nothing.
    pub fn empty() -> (r: GeoResolver)
        ensures
            r.records() == Map::<IpAddress, GeoInfo>::empty(),
    {
        GeoResolver { db: None }
    }

    /// Opens a database from the bytes of its file. Bytes that fail the
    /// structural check, or that maxminddb does not open, are refused.
    pub fn from_bytes(bytes: Vec<u8>) -> (r: Result<GeoResolver, ConfigError>)
        ensures
            r is Ok <==> database_ok(bytes@) && opens_as_database(bytes@),
            r matches Err(e) ==> e == ConfigError::InvalidDatabase,
            r matches Ok(g) ==> g.records() == city_records(bytes@),
    {
        if !check_database(bytes.as_slice()) {
            return Err(ConfigError::InvalidDatabase);
        }
        match database_from_source(bytes) {
            Ok(db) => Ok(GeoResolver { db: Some(db) }),
            Err(_) => Err(ConfigError::InvalidDatabase),
        }
    }

    /// Resolves `ip`: its record when the database holds one, "no geo info"
    /// otherwise. A miss or an undecodable record is no error.
    pub fn resolve(&self, ip: IpAddress) -> (r: Option<GeoInfo>)
        ensures
            r is Some <==> self.records().contains_key(ip),
            r matches Some(g) ==> g == self.records()[ip],
    {
        proof {
            use_type_invariant(self);
        }
        match &self.db {
            Some(db) => match lookup_city(db, ip) {
                Ok(g) => Some(g),
                Err(_) => None,
            },
            None => None,
        }
    }
}

} // verus!
