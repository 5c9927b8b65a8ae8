use toukei::{
    extract_visit, header_value, query_value, user_agent, ClientAddress, EventKind, IpAddress,
    Request, RequestError,
};

fn pairs(items: &[(&str, &str)]) -> Vec<(String, String)> {
    items.iter().map(|(k, v)| (k.to_string(), v.to_string())).collect()
}

fn peer() -> ClientAddress {
    ClientAddress { ip: IpAddress::V4([192, 0, 2, 7]), port: 51000 }
}

#[test]
fn query_value_takes_first_match() {
    let q = pairs(&[("ref", "a"), ("url", "http://one"), ("url", "http://two")]);
    assert_eq!(query_value(&q, "url"), Some("http://one".to_string()));
}

#[test]
fn query_value_is_case_sensitive() {
    let q = pairs(&[("URL", "http://one")]);
    assert_eq!(query_value(&q, "url"), None);
}

#[test]
fn query_value_keeps_empty_value() {
    let q = pairs(&[("referrer", "")]);
    assert_eq!(query_value(&q, "referrer"), Some(String::new()));
}

#[test]
fn header_value_ignores_ascii_case() {
    let h = pairs(&[("Accept", "*/*"), ("User-Agent", "Mozilla/5.0")]);
    assert_eq!(header_value(&h, "user-agent"), Some("Mozilla/5.0".to_string()));
    assert_eq!(header_value(&h, "USER-AGENT"), Some("Mozilla/5.0".to_string()));
    assert_eq!(header_value(&h, "user-agen"), None);
}

#[test]
fn user_agent_absent_is_not_provided() {
    let req = Request { query: pairs(&[("url", "http://example.com")]), headers: vec![], peer: peer() };
    assert_eq!(user_agent(&req), None);
}

#[test]
fn extract_visit_without_url_is_refused() {
    let req = Request { query: pairs(&[("referrer", "http://a")]), headers: vec![], peer: peer() };
    assert_eq!(extract_visit(&req, EventKind::Visit), Err(RequestError::MissingUrl));
}

#[test]
fn extract_visit_reads_every_field() {
    let req = Request {
        query: pairs(&[("url", "http://example.com/p"), ("referrer", "http://r"), ("bot", "1")]),
        headers: pairs(&[("user-agent", "curl/8")]),
        peer: peer(),
    };
    let v = extract_visit(&req, EventKind::Pixel).unwrap();
    assert_eq!(v.kind, EventKind::Pixel);
    assert_eq!(v.url, "http://example.com/p");
    assert_eq!(v.referrer.as_deref(), Some("http://r"));
    assert_eq!(v.is_bot.as_deref(), Some("1"));
    assert_eq!(v.user_agent.as_deref(), Some("curl/8"));
    assert_eq!(v.client_address, peer());
}
