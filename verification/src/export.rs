//! The media type of a stored picture, read off its bytes.

use vstd::prelude::*;

verus! {

/// What `image::guess_format` followed by `ImageFormat::to_mime_type` makes of bytes: the
/// media type of the image format whose signature they start with, if there is one.
pub uninterp spec fn guessed_media(bytes: Seq<u8>) -> Option<Seq<char>>;

/// The media type of the format that `image::guess_format` sees in bytes, as
/// `ImageFormat::to_mime_type` spells it; `None` where the guess fails. It depends on the
/// bytes alone. Which signatures it knows is the crate's table and is not stated.
#[verifier::external_body]
fn guess(bytes: &[u8]) -> (media: Option<&'static str>)
    ensures
        media is Some <==> guessed_media(bytes@) is Some,
        media is Some ==> media->0@ == guessed_media(bytes@)->0,
{
    image::guess_format(bytes).ok().map(|format| format.to_mime_type())
}

/// The media type a picture is exported under, given what its bytes were guessed to be:
/// anything that was not recognised is a stream of bytes.
pub fn media_or_stream(guess: Option<&'static str>) -> (media: &'static str)
    ensures
        media@ == (match guess {
            Some(media) => media@,
            None => "application/octet-stream"@,
        }),
{
    match guess {
        Some(media) => media,
        None => "application/octet-stream",
    }
}

/// The media type a picture is exported under. The store holds nothing beside the bytes, so
/// it is read off them.
pub fn media_type(bytes: &[u8]) -> (media: &'static str)
    ensures
        media@ == (match guessed_media(bytes@) {
            Some(media) => media,
            None => "application/octet-stream"@,
        }),
{
    media_or_stream(guess(bytes))
}

} // verus!
