//! The transport-neutral request and the extraction of a visit record's
//! fields from it.
use vstd::prelude::*;

verus! {

/// An IP address as its octets, most significant first.
#[derive(Clone, Copy, Debug, PartialEq, Eq)]
pub enum IpAddress {
    V4([u8; 4]),
    V6([u8; 16]),
}

/// The peer socket address as the transport observed it.
#[derive(Clone, Copy, Debug, PartialEq, Eq)]
pub struct ClientAddress {
    pub ip: IpAddress,
    pub port: u16,
}

/// Which tracking endpoint a request came in on.
#[derive(Clone, Copy, Debug, PartialEq, Eq, Structural)]
pub enum EventKind {
    /// `GET /visit.png`: the image variant, for clients that fire no scripts.
    Pixel,
    /// `POST /visit`: the beacon sent on page load.
    Visit,
    /// `POST /exit`: the beacon sent on page unload.
    Exit,
}

/// An inbound request: its decoded query parameters and headers, in the
/// order they arrived, and the peer address.
#[derive(Clone, Debug)]
pub struct Request {
    pub query: Vec<(String, String)>,
    pub headers: Vec<(String, String)>,
    pub peer: ClientAddress,
}

/// The fields of a visit that come from the request itself.
#[derive(Clone, Debug, PartialEq, Eq)]
pub struct VisitFields {
    pub kind: EventKind,
    pub url: String,
    pub referrer: Option<String>,
    pub is_bot: Option<String>,
    pub user_agent: Option<String>,
    pub client_address: ClientAddress,
}

/// Why a request cannot be recorded.
#[derive(Clone, Copy, Debug, PartialEq, Eq, Structural)]
pub enum RequestError {
    /// The required `url` parameter is absent.
    MissingUrl,
}

pub open spec fn opt_view(o: Option<String>) -> Option<Seq<char>> {
    match o {
        Some(s) => Some(s@),
        None => None,
    }
}

/// The value of the first pair whose name is exactly `key`.
pub open spec fn first_value(pairs: Seq<(String, String)>, key: Seq<char>) -> Option<Seq<char>>
    decreases pairs.len(),
{
    if pairs.len() == 0 {
        None
    } else if pairs[0].0@ == key {
        Some(pairs[0].1@)
    } else {
        first_value(pairs.drop_first(), key)
    }
}

pub open spec fn ascii_lower(c: char) -> char {
    if 'A' <= c && c <= 'Z' {
        ((c as u8) + 32) as char
    } else {
        c
    }
}

/// Equal up to the case of ASCII letters, as header names compare.
pub open spec fn same_name(a: Seq<char>, b: Seq<char>) -> bool {
    a.len() == b.len() && forall|i: int| 0 <= i < a.len() ==> ascii_lower(#[trigger] a[i]) == ascii_lower(b[i])
}

/// The value of the first header whose name is `key`, ignoring ASCII case.
pub open spec fn first_header(pairs: Seq<(String, String)>, key: Seq<char>) -> Option<Seq<char>>
    decreases pairs.len(),
{
    if pairs.len() == 0 {
        None
    } else if same_name(pairs[0].0@, key) {
        Some(pairs[0].1@)
    } else {
        first_header(pairs.drop_first(), key)
    }
}

/// What extraction yields for `req` on endpoint `kind`: the record's fields
/// when `url` is present, each optional field absent exactly when its
/// parameter or header is.
pub open spec fn fields_match(f: VisitFields, kind: EventKind, req: Request) -> bool {
    &&& f.kind == kind
    &&& first_value(req.query@, "url"@) == Some(f.url@)
    &&& opt_view(f.referrer) == first_value(req.query@, "referrer"@)
    &&& opt_view(f.is_bot) == first_value(req.query@, "bot"@)
    &&& opt_view(f.user_agent) == first_header(req.headers@, "user-agent"@)
    &&& f.client_address == req.peer
}

fn chars_equal(a: &str, b: &str) -> (r: bool)
    ensures
        r == (a@ == b@),
{
    let n = a.unicode_len();
    if n != b.unicode_len() {
        return false;
    }
    let mut i: usize = 0;
    while i < n
        invariant
            n == a@.len(),
            n == b@.len(),
            i <= n,
            forall|j: int| 0 <= j < i ==> a@[j] == b@[j],
        decreases n - i,
    {
        if a.get_char(i) != b.get_char(i) {
            return false;
        }
        i = i + 1;
    }
    assert(a@ =~= b@);
    true
}

fn lower_char(c: char) -> (r: char)
    ensures
        r == ascii_lower(c),
{
    if 'A' <= c && c <= 'Z' {
        ((c as u8) + 32) as char
    } else {
        c
    }
}

fn names_equal(a: &str, b: &str) -> (r: bool)
    ensures
        r == same_name(a@, b@),
{
    let n = a.unicode_len();
    if n != b.unicode_len() {
        return false;
    }
    let mut i: usize = 0;
    while i < n
        invariant
            n == a@.len(),
            n == b@.len(),
            i <= n,
            forall|j: int| 0 <= j < i ==> ascii_lower(a@[j]) == ascii_lower(b@[j]),
        decreases n - i,
    {
        if lower_char(a.get_char(i)) != lower_char(b.get_char(i)) {
            return false;
        }
        i = i + 1;
    }
    true
}

/// The value of the first query parameter named `key`.
pub fn query_value(pairs: &Vec<(String, String)>, key: &str) -> (r: Option<String>)
    ensures
        opt_view(r) == first_value(pairs@, key@),
{
    let mut i: usize = 0;
    assert(pairs@.skip(0) =~= pairs@);
    while i < pairs.len()
        invariant
            i <= pairs@.len(),
            first_value(pairs@, key@) == first_value(pairs@.skip(i as int), key@),
        decreases pairs@.len() - i,
    {
        assert(pairs@.skip(i as int).drop_first() =~= pairs@.skip(i + 1));
        if chars_equal(pairs[i].0.as_str(), key) {
            return Some(pairs[i].1.clone());
        }
        i = i + 1;
    }
    None
}

/// The value of the first header named `key`, ignoring ASCII case.
pub fn header_value(pairs: &Vec<(String, String)>, key: &str) -> (r: Option<String>)
    ensures
        opt_view(r) == first_header(pairs@, key@),
{
    let mut i: usize = 0;
    assert(pairs@.skip(0) =~= pairs@);
    while i < pairs.len()
        invariant
            i <= pairs@.len(),
            first_header(pairs@, key@) == first_header(pairs@.skip(i as int), key@),
        decreases pairs@.len() - i,
    {
        assert(pairs@.skip(i as int).drop_first() =~= pairs@.skip(i + 1));
        if names_equal(pairs[i].0.as_str(), key) {
            return Some(pairs[i].1.clone());
        }
        i = i + 1;
    }
    None
}

/// The `User-Agent` header of `req`, if it has one.
pub fn user_agent(req: &Request) -> (r: Option<String>)
    ensures
        opt_view(r) == first_header(req.headers@, "user-agent"@),
{
    header_value(&req.headers, "user-agent")
}

/// Extracts the visit fields of `req`: `MissingUrl` exactly when it has no
/// `url` parameter.
pub fn extract_visit(req: &Request, kind: EventKind) -> (r: Result<VisitFields, RequestError>)
    ensures
        r is Err <==> first_value(req.query@, "url"@) is None,
        r matches Err(e) ==> e == RequestError::MissingUrl,
        r matches Ok(f) ==> fields_match(f, kind, *req),
{
    let url = match query_value(&req.query, "url") {
        Some(u) => u,
        None => return Err(RequestError::MissingUrl),
    };
    Ok(VisitFields {
        kind,
        url,
        referrer: query_value(&req.query, "referrer"),
        is_bot: query_value(&req.query, "bot"),
        user_agent: user_agent(req),
        client_address: req.peer,
    })
}

} // verus!
