//! The icon of the game, from the bytes of an image file to pixels.

use vstd::prelude::*;

verus! {

/// A decoded image: its size in pixels and its pixels, row by row, each with
/// one byte for red, green, blue and alpha.
pub struct Icon {
    /// The width in pixels.
    pub width: u32,
    /// The height in pixels.
    pub height: u32,
    /// The pixels.
    pub rgba: Vec<u8>,
}

/// What the `image` crate makes of the bytes of an image file, turned into
/// pixels of red, green, blue and alpha: the width, the height and the
/// pixels, or nothing if it cannot read the bytes as an image.
pub uninterp spec fn decoded_rgba(bytes: Seq<u8>) -> Option<(u32, u32, Seq<u8>)>;

/// `image::load_from_memory` and `DynamicImage::into_rgba8`, taken apart into
/// width, height and the raw pixels. What comes out depends on the bytes
/// alone.
#[verifier::external_body]
pub(crate) fn decode_rgba(bytes: &[u8]) -> (image: Option<(u32, u32, Vec<u8>)>)
    ensures
        decoded_rgba(bytes@) == match image {
            Some((width, height, rgba)) => Some((width, height, rgba@)),
            None => None,
        },
{
    match image::load_from_memory(bytes) {
        Ok(image) => {
            let image = image.into_rgba8();
            Some((image.width(), image.height(), image.into_raw()))
        },
        Err(_) => None,
    }
}

/// The icon that the given bytes hold, if there are any and they can be read
/// as an image.
pub fn decode_icon(bytes: Option<&[u8]>) -> (icon: Option<Icon>)
    ensures
        match icon {
            Some(icon) => bytes matches Some(file) && decoded_rgba(file@) == Some(
                (icon.width, icon.height, icon.rgba@),
            ),
            None => bytes matches Some(file) ==> decoded_rgba(file@) is None,
        },
{
    match bytes {
        Some(file) => match decode_rgba(file) {
            Some((width, height, rgba)) => Some(Icon { width, height, rgba }),
            None => None,
        },
        None => None,
    }
}

} // verus!
