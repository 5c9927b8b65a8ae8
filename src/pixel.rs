//! The fixed responses: the informational index text and the non-cacheable
//! 1x1 transparent image returned by every tracking endpoint.
use vstd::prelude::*;

verus! {

/// An HTTP response as the library describes it; the transport writes it out.
#[derive(Clone, Debug, PartialEq, Eq)]
pub struct HttpResponse {
    pub status: u16,
    pub content_type: String,
    /// The `Cache-Control` header, when the response sets one.
    pub cache_control: Option<String>,
    pub body: Vec<u8>,
}

/// The bytes of a 1x1 fully transparent PNG image.
pub open spec fn pixel_bytes() -> Seq<u8> {
    seq![
        0x89u8, 0x50, 0x4e, 0x47, 0x0d, 0x0a, 0x1a, 0x0a, 0x00, 0x00, 0x00, 0x0d, 0x49, 0x48,
        0x44, 0x52, 0x00, 0x00, 0x00, 0x01, 0x00, 0x00, 0x00, 0x01, 0x08, 0x06, 0x00, 0x00,
        0x00, 0x1f, 0x15, 0xc4, 0x89, 0x00, 0x00, 0x00, 0x0a, 0x49, 0x44, 0x41, 0x54, 0x78,
        0x9c, 0x63, 0x00, 0x01, 0x00, 0x00, 0x05, 0x00, 0x01, 0x0d, 0x0a, 0x2d, 0xb4, 0x00,
        0x00, 0x00, 0x00, 0x49, 0x45, 0x4e, 0x44, 0xae, 0x42, 0x60, 0x82,
    ]
}

/// The text served at the root path.
pub open spec fn index_text() -> Seq<char> {
    "Please see https://github.com/Mononofu/toukei"@
}

/// The pixel response: success, `image/png`, the fixed image bytes, and a
/// `Cache-Control` that forbids storing it.
pub open spec fn is_pixel_response(r: HttpResponse) -> bool {
    &&& r.status == 200
    &&& r.content_type@ == "image/png"@
    &&& r.cache_control matches Some(c) && c@ == "no-store, max-age=0"@
    &&& r.body@ == pixel_bytes()
}

/// The response to a tracking request without its required `url` parameter.
pub open spec fn is_missing_url_response(r: HttpResponse) -> bool {
    &&& r.status == 400
    &&& r.content_type@ == "text/plain"@
    &&& r.cache_control is None
    &&& r.body@ == Seq::<u8>::empty()
}

/// The informational text served at `GET /`.
pub fn index() -> (r: &'static str)
    ensures
        r@ == index_text(),
{
    "Please see https://github.com/Mononofu/toukei"
}

/// Builds the fixed pixel response.
pub fn pixel_response() -> (r: HttpResponse)
    ensures
        is_pixel_response(r),
{
    let body: Vec<u8> = vec![
        0x89u8, 0x50, 0x4e, 0x47, 0x0d, 0x0a, 0x1a, 0x0a, 0x00, 0x00, 0x00, 0x0d, 0x49, 0x48,
        0x44, 0x52, 0x00, 0x00, 0x00, 0x01, 0x00, 0x00, 0x00, 0x01, 0x08, 0x06, 0x00, 0x00,
        0x00, 0x1f, 0x15, 0xc4, 0x89, 0x00, 0x00, 0x00, 0x0a, 0x49, 0x44, 0x41, 0x54, 0x78,
        0x9c, 0x63, 0x00, 0x01, 0x00, 0x00, 0x05, 0x00, 0x01, 0x0d, 0x0a, 0x2d, 0xb4, 0x00,
        0x00, 0x00, 0x00, 0x49, 0x45, 0x4e, 0x44, 0xae, 0x42, 0x60, 0x82,
    ];
    assert(body@ =~= pixel_bytes());
    HttpResponse {
        status: 200,
        content_type: String::from_str("image/png"),
        cache_control: Some(String::from_str("no-store, max-age=0")),
        body,
    }
}

/// Builds the client-error response for a tracking request that lacks `url`.
pub fn missing_url_response() -> (r: HttpResponse)
    ensures
        is_missing_url_response(r),
{
    let body: Vec<u8> = Vec::new();
    HttpResponse {
        status: 400,
        content_type: String::from_str("text/plain"),
        cache_control: None,
        body,
    }
}

} // verus!
