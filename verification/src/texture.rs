//! The texture image that every draw samples: decoding it and laying it out
//! for the copy into a GPU texture.

use crate::cache::TextureSize;
use vstd::prelude::*;

verus! {

/// The error type of the `image` crate.
#[verifier::external_type_specification]
#[verifier::external_body]
pub struct ExImageError(image::ImageError);

/// What the `image` crate makes of an encoded image: width, height and the
/// pixels as rows of RGBA bytes, or `None` where it cannot decode it.
pub uninterp spec fn decoded_image(encoded: Seq<u8>) -> Option<(u32, u32, Seq<u8>)>;

/// `image::load_from_memory`, with the image that it gives taken as 8-bit
/// RGBA. Trusted: the outcome depends on the encoded bytes alone, and the
/// pixel buffer has four bytes for each pixel of the size reported with it.
#[verifier::external_body]
fn decode_rgba8(encoded: &[u8]) -> (image: Result<(u32, u32, Vec<u8>), image::ImageError>)
    ensures
        match image {
            Ok((width, height, pixels)) => {
                &&& decoded_image(encoded@) == Some((width, height, pixels@))
                &&& pixels@.len() == 4 * width * height
            },
            Err(_) => decoded_image(encoded@) is None,
        },
{
    let rgba = image::load_from_memory(encoded)?.to_rgba8();
    Ok((rgba.width(), rgba.height(), rgba.into_raw()))
}

/// Why an image cannot become a texture.
#[derive(Clone, Copy, Debug, PartialEq, Eq)]
pub enum TextureError {
    /// The bytes are no image that can be decoded.
    Undecodable,
    /// A row of the image has more bytes than a copy can describe.
    TooWide,
    /// The pixel buffer does not have four bytes for each pixel.
    SizeMismatch,
}

/// A texture's content and how it is laid out for the copy.
#[derive(Clone, Debug, PartialEq, Eq)]
pub struct TextureData {
    pub size: TextureSize,
    /// Bytes from the start of one row to the start of the next.
    pub bytes_per_row: u32,
    /// Rows in the image.
    pub rows_per_image: u32,
    /// The rows, top first, four bytes to a pixel.
    pub rgba: Vec<u8>,
}

/// What a `TextureData` holds.
pub struct TextureDataView {
    pub size: TextureSize,
    pub bytes_per_row: u32,
    pub rows_per_image: u32,
    pub rgba: Seq<u8>,
}

impl View for TextureData {
    type V = TextureDataView;

    open spec fn view(&self) -> TextureDataView {
        TextureDataView {
            size: self.size,
            bytes_per_row: self.bytes_per_row,
            rows_per_image: self.rows_per_image,
            rgba: self.rgba@,
        }
    }
}

/// The texture that RGBA pixels of the given size make, or the reason why
/// they make none.
pub open spec fn laid_out(width: u32, height: u32, rgba: Seq<u8>) -> Result<
    TextureDataView,
    TextureError,
> {
    if 4 * width > u32::MAX {
        Err(TextureError::TooWide)
    } else if rgba.len() != 4 * width * height {
        Err(TextureError::SizeMismatch)
    } else {
        Ok(
            TextureDataView {
                size: TextureSize { width, height },
                bytes_per_row: (4 * width) as u32,
                rows_per_image: height,
                rgba,
            },
        )
    }
}

/// The texture that an encoded image makes.
pub open spec fn texture_of(encoded: Seq<u8>) -> Result<TextureDataView, TextureError> {
    match decoded_image(encoded) {
        Some((width, height, rgba)) => laid_out(width, height, rgba),
        None => Err(TextureError::Undecodable),
    }
}

/// Lays RGBA pixels out as a texture of `width` by `height`.
pub fn texture_from_rgba(width: u32, height: u32, rgba: Vec<u8>) -> (texture: Result<
    TextureData,
    TextureError,
>)
    ensures
        match laid_out(width, height, rgba@) {
            Ok(expected) => texture matches Ok(t) && t@ == expected,
            Err(e) => texture == Err::<TextureData, TextureError>(e),
        },
{
    let bytes_per_row = match width.checked_mul(4) {
        Some(n) => n,
        None => {
            return Err(TextureError::TooWide);
        },
    };
    assert(bytes_per_row * height <= 0xFFFF_FFFF * 0xFFFF_FFFF) by (nonlinear_arith)
        requires
            bytes_per_row <= 0xFFFF_FFFF,
            height <= 0xFFFF_FFFF,
    ;
    let expected: u64 = (bytes_per_row as u64) * (height as u64);
    assert(expected == 4 * width * height) by (nonlinear_arith)
        requires
            expected == bytes_per_row * height,
            bytes_per_row == 4 * width,
    ;
    if rgba.len() as u64 != expected {
        return Err(TextureError::SizeMismatch);
    }
    Ok(
        TextureData {
            size: TextureSize { width, height },
            bytes_per_row,
            rows_per_image: height,
            rgba,
        },
    )
}

/// Decodes an encoded image and lays it out as a texture.
pub fn load_texture(encoded: &[u8]) -> (texture: Result<TextureData, TextureError>)
    ensures
        match texture_of(encoded@) {
            Ok(expected) => texture matches Ok(t) && t@ == expected,
            Err(e) => texture == Err::<TextureData, TextureError>(e),
        },
{
    match decode_rgba8(encoded) {
        Ok((width, height, rgba)) => texture_from_rgba(width, height, rgba),
        Err(_) => Err(TextureError::Undecodable),
    }
}

} // verus!
