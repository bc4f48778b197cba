//! The pixels of an image asset, for a textured shape.
use vstd::prelude::*;

verus! {

/// What `image::load_from_memory` makes of the bytes of an image file,
/// turned into an 8-bit RGBA image by `DynamicImage::to_rgba8`: its pixel
/// bytes (four per pixel, row by row from the top left) and its width and
/// height. `None` where the bytes do not decode.
pub uninterp spec fn decoded_rgba8(bytes: Seq<u8>) -> Option<(Seq<u8>, u32, u32)>;

/// Decodes an image file with `image::load_from_memory` (its format
/// guessed from its first bytes, within the crate's default size limits),
/// converts it with `DynamicImage::to_rgba8` and gives its raw pixel bytes
/// and its dimensions. The contract ties the result to `decoded_rgba8` of
/// the bytes and states the length of the pixel bytes, which the decoder
/// and the converter allocate as width times height times four; what the
/// pixels hold is only named.
#[verifier::external_body]
fn load_rgba8(bytes: &[u8]) -> (r: Option<(Vec<u8>, u32, u32)>)
    ensures
        match r {
            Some((pixels, w, h)) => decoded_rgba8(bytes@) == Some((pixels@, w, h))
                && pixels@.len() == 4 * w * h,
            None => decoded_rgba8(bytes@) is None,
        },
{
    match image::load_from_memory(bytes) {
        Ok(img) => {
            let rgba = img.to_rgba8();
            let (w, h) = rgba.dimensions();
            Some((rgba.into_raw(), w, h))
        },
        Err(_) => None,
    }
}

/// The pixels of an image asset as 8-bit RGBA, four bytes per pixel, and
/// its width and height.
pub fn get_image(bytes: &[u8]) -> (image: (Vec<u8>, (u32, u32)))
    requires
        decoded_rgba8(bytes@) is Some,
    ensures
        decoded_rgba8(bytes@) == Some((image.0@, image.1.0, image.1.1)),
        image.0@.len() == 4 * image.1.0 * image.1.1,
{
    match load_rgba8(bytes) {
        Some((pixels, w, h)) => (pixels, (w, h)),
        None => (Vec::new(), (0, 0)),
    }
}

/// The pixels and the dimensions of an image asset, as `get_image` gives
/// them, or `None` where the bytes are not an image that decodes.
pub fn try_get_image(bytes: &[u8]) -> (image: Option<(Vec<u8>, (u32, u32))>)
    ensures
        match image {
            Some((pixels, (w, h))) => decoded_rgba8(bytes@) == Some((pixels@, w, h))
                && pixels@.len() == 4 * w * h,
            None => decoded_rgba8(bytes@) is None,
        },
{
    match load_rgba8(bytes) {
        Some(_) => Some(get_image(bytes)),
        None => None,
    }
}

} // verus!
