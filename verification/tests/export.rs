//! The media type of a picture.

use vellum_app::export::{media_or_stream, media_type};

#[test]
fn the_media_type_is_read_off_the_bytes() {
    assert_eq!(media_type(b"\x89PNG\r\n\x1a\nrest"), "image/png");
    assert_eq!(media_type(&[0xff, 0xd8, 0xff, 0xe0]), "image/jpeg");
    assert_eq!(media_type(b"GIF89a....."), "image/gif");
    assert_eq!(media_type(b"RIFF\x10\x20\x30\x40WEBPVP8 "), "image/webp");
}

#[test]
fn what_is_not_recognised_is_a_stream_of_bytes() {
    assert_eq!(media_type(b"%PDF-1.7"), "application/octet-stream");
    assert_eq!(media_type(b""), "application/octet-stream");
    assert_eq!(media_or_stream(None), "application/octet-stream");
    assert_eq!(media_or_stream(Some("image/png")), "image/png");
}
