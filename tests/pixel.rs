use toukei::{index, missing_url_response, pixel_response};

const PNG_SIGNATURE: [u8; 8] = [0x89, 0x50, 0x4e, 0x47, 0x0d, 0x0a, 0x1a, 0x0a];

#[test]
fn index_text() {
    assert_eq!(index(), "Please see https://github.com/Mononofu/toukei");
}

#[test]
fn pixel_response_is_fixed_png() {
    let r = pixel_response();
    assert_eq!(r.status, 200);
    assert_eq!(r.content_type, "image/png");
    assert_eq!(r.cache_control.as_deref(), Some("no-store, max-age=0"));
    assert_eq!(r.body.len(), 67);
    assert_eq!(&r.body[..8], &PNG_SIGNATURE[..]);
    assert_eq!(&r.body[r.body.len() - 8..], &[0x49, 0x45, 0x4e, 0x44, 0xae, 0x42, 0x60, 0x82][..]);
}

#[test]
fn pixel_response_is_the_same_each_time() {
    assert_eq!(pixel_response(), pixel_response());
}

#[test]
fn missing_url_response_is_client_error() {
    let r = missing_url_response();
    assert_eq!(r.status, 400);
    assert_eq!(r.cache_control, None);
    assert!(r.body.is_empty());
}
