use toukei::{ConfigError, GeoResolver, IpAddress};

/// A database of one network, 0.0.0.0/1, whose record names the city
/// "Testville" (GeoNames id 42) in country "XX".
fn sample_database() -> Vec<u8> {
    vec![0, 0, 17, 0, 0, 1, 0, 0, 0, 0, 0, 0, 0, 0, 0, 0, 0, 0, 0, 0, 0, 0, 226, 68, 99, 105, 116, 121, 226, 74, 103, 101, 111, 110, 97, 109, 101, 95, 105, 100, 193, 42, 69, 110, 97, 109, 101, 115, 225, 66, 101, 110, 73, 84, 101, 115, 116, 118, 105, 108, 108, 101, 71, 99, 111, 117, 110, 116, 114, 121, 225, 72, 105, 115, 111, 95, 99, 111, 100, 101, 66, 88, 88, 171, 205, 239, 77, 97, 120, 77, 105, 110, 100, 46, 99, 111, 109, 233, 91, 98, 105, 110, 97, 114, 121, 95, 102, 111, 114, 109, 97, 116, 95, 109, 97, 106, 111, 114, 95, 118, 101, 114, 115, 105, 111, 110, 161, 2, 91, 98, 105, 110, 97, 114, 121, 95, 102, 111, 114, 109, 97, 116, 95, 109, 105, 110, 111, 114, 95, 118, 101, 114, 115, 105, 111, 110, 160, 75, 98, 117, 105, 108, 100, 95, 101, 112, 111, 99, 104, 1, 2, 1, 77, 100, 97, 116, 97, 98, 97, 115, 101, 95, 116, 121, 112, 101, 73, 84, 101, 115, 116, 45, 67, 105, 116, 121, 75, 100, 101, 115, 99, 114, 105, 112, 116, 105, 111, 110, 224, 74, 105, 112, 95, 118, 101, 114, 115, 105, 111, 110, 161, 4, 73, 108, 97, 110, 103, 117, 97, 103, 101, 115, 1, 4, 66, 101, 110, 74, 110, 111, 100, 101, 95, 99, 111, 117, 110, 116, 193, 1, 75, 114, 101, 99, 111, 114, 100, 95, 115, 105, 122, 101, 161, 24]
}

#[test]
fn empty_resolver_finds_nothing() {
    let r = GeoResolver::empty();
    assert!(r.resolve(IpAddress::V4([8, 8, 8, 8])).is_none());
    assert!(r.resolve(IpAddress::V6([0; 16])).is_none());
}

#[test]
fn from_bytes_refuses_empty_bytes() {
    assert!(matches!(GeoResolver::from_bytes(vec![]), Err(ConfigError::InvalidDatabase)));
}

#[test]
fn from_bytes_refuses_bytes_without_metadata() {
    let bytes = b"not a geo database at all".to_vec();
    assert!(matches!(GeoResolver::from_bytes(bytes), Err(ConfigError::InvalidDatabase)));
}

#[test]
fn from_bytes_opens_sample_database() {
    assert!(GeoResolver::from_bytes(sample_database()).is_ok());
}

#[test]
fn resolve_finds_record_of_present_address() {
    let r = GeoResolver::from_bytes(sample_database()).unwrap();
    let g = r.resolve(IpAddress::V4([1, 2, 3, 4])).unwrap();
    let city = g.city.unwrap();
    assert_eq!(city.geoname_id, Some(42));
    assert_eq!(city.iso_code, None);
    assert_eq!(city.names, Some(vec![("en".to_string(), "Testville".to_string())]));
    let country = g.country.unwrap();
    assert_eq!(country.iso_code.as_deref(), Some("XX"));
    assert_eq!(country.geoname_id, None);
    assert_eq!(country.names, None);
    assert!(g.subdivisions.is_none());
    assert!(g.location.is_none());
}

#[test]
fn resolve_gives_nothing_for_absent_address() {
    let r = GeoResolver::from_bytes(sample_database()).unwrap();
    assert!(r.resolve(IpAddress::V4([192, 168, 1, 1])).is_none());
}

#[test]
fn from_bytes_refuses_marker_alone() {
    let marker = vec![0xab, 0xcd, 0xef, b'M', b'a', b'x', b'M', b'i', b'n', b'd', b'.', b'c', b'o', b'm'];
    assert!(matches!(GeoResolver::from_bytes(marker), Err(ConfigError::InvalidDatabase)));
}

#[test]
fn from_bytes_refuses_truncated_metadata() {
    let mut bytes = sample_database();
    bytes.truncate(bytes.len() - 20);
    assert!(matches!(GeoResolver::from_bytes(bytes), Err(ConfigError::InvalidDatabase)));
}

#[test]
fn from_bytes_refuses_record_pointing_past_the_data() {
    let mut bytes = sample_database();
    // The first record of the only node: point it far beyond the buffer.
    bytes[0] = 0x7f;
    assert!(matches!(GeoResolver::from_bytes(bytes), Err(ConfigError::InvalidDatabase)));
}

#[test]
fn from_bytes_refuses_record_below_the_data_section() {
    let mut bytes = sample_database();
    // Values between the node count and the node count plus 16 point nowhere.
    bytes[2] = 5;
    assert!(matches!(GeoResolver::from_bytes(bytes), Err(ConfigError::InvalidDatabase)));
}

/// A database of one network, 0.0.0.0/1, whose record reaches one shared
/// names map ("Shared") through two pointers, from its city and its country.
fn shared_names_database() -> Vec<u8> {
    vec![0, 0, 28, 0, 0, 1, 0, 0, 0, 0, 0, 0, 0, 0, 0, 0, 0, 0, 0, 0, 0, 0, 225, 66, 101, 110, 70, 83, 104, 97, 114, 101, 100, 226, 68, 99, 105, 116, 121, 225, 69, 110, 97, 109, 101, 115, 32, 0, 71, 99, 111, 117, 110, 116, 114, 121, 226, 72, 105, 115, 111, 95, 99, 111, 100, 101, 66, 89, 89, 69, 110, 97, 109, 101, 115, 32, 0, 171, 205, 239, 77, 97, 120, 77, 105, 110, 100, 46, 99, 111, 109, 233, 91, 98, 105, 110, 97, 114, 121, 95, 102, 111, 114, 109, 97, 116, 95, 109, 97, 106, 111, 114, 95, 118, 101, 114, 115, 105, 111, 110, 161, 2, 91, 98, 105, 110, 97, 114, 121, 95, 102, 111, 114, 109, 97, 116, 95, 109, 105, 110, 111, 114, 95, 118, 101, 114, 115, 105, 111, 110, 160, 75, 98, 117, 105, 108, 100, 95, 101, 112, 111, 99, 104, 1, 2, 1, 77, 100, 97, 116, 97, 98, 97, 115, 101, 95, 116, 121, 112, 101, 73, 84, 101, 115, 116, 45, 67, 105, 116, 121, 75, 100, 101, 115, 99, 114, 105, 112, 116, 105, 111, 110, 224, 74, 105, 112, 95, 118, 101, 114, 115, 105, 111, 110, 161, 4, 73, 108, 97, 110, 103, 117, 97, 103, 101, 115, 1, 4, 66, 101, 110, 74, 110, 111, 100, 101, 95, 99, 111, 117, 110, 116, 193, 1, 75, 114, 101, 99, 111, 114, 100, 95, 115, 105, 122, 101, 161, 24]
}

#[test]
fn resolve_follows_pointers_to_shared_values() {
    let r = GeoResolver::from_bytes(shared_names_database()).unwrap();
    let g = r.resolve(IpAddress::V4([9, 9, 9, 9])).unwrap();
    let shared = Some(vec![("en".to_string(), "Shared".to_string())]);
    assert_eq!(g.city.unwrap().names, shared);
    let country = g.country.unwrap();
    assert_eq!(country.iso_code.as_deref(), Some("YY"));
    assert_eq!(country.names, shared);
}

#[test]
fn from_bytes_refuses_pointer_past_the_data() {
    let mut bytes = shared_names_database();
    // Locate the first pointer (control byte 0x20, target 0) and aim it far away.
    let at = bytes.windows(2).position(|w| w == [0x20, 0x00]).unwrap();
    bytes[at] = 0x27;
    bytes[at + 1] = 0xff;
    assert!(matches!(GeoResolver::from_bytes(bytes), Err(ConfigError::InvalidDatabase)));
}
