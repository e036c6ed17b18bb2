//! The raw framebuffer decoder: turns the pixels that the video output points
//! at in emulated memory into rows of RGBA bytes.

use crate::cache::TextureSize;
use crate::texture::{TextureData, TextureDataView};
use vstd::prelude::*;

verus! {

/// Format code of 16-bit pixels: five bits each of red, green and blue and
/// one coverage bit, two pixels to a memory word, the first in the high half.
pub const FORMAT_16BPP: u32 = 2;

/// Format code of 32-bit pixels, one to a memory word.
pub const FORMAT_32BPP: u32 = 3;

/// One reading of the video interface's registers.
#[derive(Clone, Copy, Debug, PartialEq, Eq)]
pub struct VideoState {
    /// Byte address of the first pixel shown.
    pub origin: u32,
    /// Pixels in a row.
    pub width: u32,
    /// Pixel format code.
    pub format: u32,
}

/// Why a frame could not be decoded.
#[derive(Clone, Copy, Debug, PartialEq, Eq)]
pub enum DecodeError {
    /// The width is neither 320 nor 640.
    UnknownWidth,
    /// The format code is neither `FORMAT_16BPP` nor `FORMAT_32BPP`.
    UnsupportedFormat,
    /// The frame does not lie within memory.
    OutOfBounds,
}

/// The number of rows that goes with a row width.
pub open spec fn height_for(width: u32) -> Option<u32> {
    if width == 320 {
        Some(240u32)
    } else if width == 640 {
        Some(480u32)
    } else {
        None
    }
}

/// The 16-bit pixel number `index` of two that share `word`: an even index
/// has the high half, an odd one the low half.
pub open spec fn pixel16(word: u32, index: int) -> u16 {
    if index % 2 == 0 {
        (word / 0x1_0000) as u16
    } else {
        (word % 0x1_0000) as u16
    }
}

/// The bytes of a 16-bit pixel: each five-bit channel scaled by eight, and
/// alpha 0 where the coverage bit is set, else 255.
pub open spec fn rgba5551(pix: u16) -> Seq<u8> {
    seq![
        (((pix / 2048) % 32) * 8) as u8,
        (((pix / 64) % 32) * 8) as u8,
        (((pix / 2) % 32) * 8) as u8,
        if pix % 2 == 1 {
            0u8
        } else {
            255u8
        },
    ]
}

/// The bytes of a 32-bit pixel: red, green and blue from the high byte down,
/// and full alpha in place of the low byte.
pub open spec fn rgba8888(word: u32) -> Seq<u8> {
    seq![
        (word / 0x100_0000) as u8,
        ((word / 0x1_0000) % 0x100) as u8,
        ((word / 0x100) % 0x100) as u8,
        255u8,
    ]
}

/// The bytes of pixel `i` of a frame whose first word is `memory[start]`.
pub open spec fn decoded_pixel(memory: Seq<u32>, start: int, format: u32, i: int) -> Seq<u8> {
    if format == FORMAT_16BPP {
        rgba5551(pixel16(memory[start + i / 2], i))
    } else {
        rgba8888(memory[start + i])
    }
}

/// The bytes of the first `count` pixels of that frame.
pub open spec fn decoded(memory: Seq<u32>, start: int, format: u32, count: nat) -> Seq<u8> {
    Seq::new(4 * count, |k: int| decoded_pixel(memory, start, format, k / 4)[k % 4])
}

/// Memory words that `count` pixels occupy.
pub open spec fn words_needed(format: u32, count: nat) -> nat {
    if format == FORMAT_16BPP {
        (count + 1) / 2
    } else {
        count
    }
}

/// What decoding the frame that `video` describes gives: the frame, or the
/// first reason that stands against it.
pub open spec fn decode_outcome(memory: Seq<u32>, video: VideoState) -> Result<
    TextureDataView,
    DecodeError,
> {
    match height_for(video.width) {
        None => Err(DecodeError::UnknownWidth),
        Some(height) => {
            let count = (video.width * height) as nat;
            let start = (video.origin / 4) as int;
            if video.format != FORMAT_16BPP && video.format != FORMAT_32BPP {
                Err(DecodeError::UnsupportedFormat)
            } else if start + words_needed(video.format, count) > memory.len() {
                Err(DecodeError::OutOfBounds)
            } else {
                Ok(
                    TextureDataView {
                        size: TextureSize { width: video.width, height },
                        bytes_per_row: (4 * video.width) as u32,
                        rows_per_image: height,
                        rgba: decoded(memory, start, video.format, count),
                    },
                )
            }
        },
    }
}

/// The number of rows that goes with a row width: 240 for 320, 480 for 640.
pub fn display_height(width: u32) -> (height: Option<u32>)
    ensures
        height == height_for(width),
{
    if width == 320 {
        Some(240)
    } else if width == 640 {
        Some(480)
    } else {
        None
    }
}

/// Takes pixel `index` out of the word that it shares with its neighbour.
pub fn packed_pixel(word: u32, index: usize) -> (pix: u16)
    ensures
        pix == pixel16(word, index as int),
{
    let low: usize = index & 1;
    assert(low == index % 2 && low <= 1) by (bit_vector)
        requires
            low == index & 1,
    ;
    assert(low == 0 ==> (low << 4) == 0) by (bit_vector);
    assert(low == 1 ==> (low << 4) == 16) by (bit_vector);
    let shift: usize = 16 - (low << 4);
    let pix = (word >> shift) as u16;
    assert(shift == 16 ==> (word >> shift) as u16 == (word / 0x1_0000) as u16) by (bit_vector);
    assert(shift == 0 ==> (word >> shift) as u16 == (word % 0x1_0000) as u16) by (bit_vector);
    pix
}

/// Expands a 16-bit pixel to four bytes.
pub fn expand_rgba5551(pix: u16) -> (bytes: [u8; 4])
    ensures
        bytes@ == rgba5551(pix),
{
    let r = ((pix >> 11) & 0x1F) as u8;
    let g = ((pix >> 6) & 0x1F) as u8;
    let b = ((pix >> 1) & 0x1F) as u8;
    let a = (pix & 0x01) as u8;
    assert((((pix >> 11) & 0x1F) as u8) << 3 == (((pix / 2048) % 32) * 8) as u8) by (bit_vector);
    assert((((pix >> 6) & 0x1F) as u8) << 3 == (((pix / 64) % 32) * 8) as u8) by (bit_vector);
    assert((((pix >> 1) & 0x1F) as u8) << 3 == (((pix / 2) % 32) * 8) as u8) by (bit_vector);
    assert(((pix & 0x01) as u8 == 1) <==> (pix % 2 == 1)) by (bit_vector);
    let bytes = [r << 3, g << 3, b << 3, if a == 1 {
        0
    } else {
        255
    }];
    assert(bytes@ =~= rgba5551(pix));
    bytes
}

/// Expands a 32-bit pixel to four bytes.
pub fn expand_rgba8888(word: u32) -> (bytes: [u8; 4])
    ensures
        bytes@ == rgba8888(word),
{
    let pix = word | 0xff;
    let bytes = [(pix >> 24) as u8, (pix >> 16) as u8, (pix >> 8) as u8, pix as u8];
    assert(((word | 0xff) >> 24) as u8 == (word / 0x100_0000) as u8) by (bit_vector);
    assert(((word | 0xff) >> 16) as u8 == ((word / 0x1_0000) % 0x100) as u8) by (bit_vector);
    assert(((word | 0xff) >> 8) as u8 == ((word / 0x100) % 0x100) as u8) by (bit_vector);
    assert((word | 0xff) as u8 == 255u8) by (bit_vector);
    assert(bytes@ =~= rgba8888(word));
    bytes
}

/// One more pixel appends its four bytes.
pub proof fn lemma_decoded_step(memory: Seq<u32>, start: int, format: u32, count: nat)
    ensures
        decoded(memory, start, format, count + 1) == decoded(memory, start, format, count)
            + decoded_pixel(memory, start, format, count as int),
        decoded_pixel(memory, start, format, count as int).len() == 4,
{
    let left = decoded(memory, start, format, count + 1);
    let right = decoded(memory, start, format, count) + decoded_pixel(
        memory,
        start,
        format,
        count as int,
    );
    assert(left.len() == right.len());
    assert forall|k: int| 0 <= k < left.len() implies left[k] == right[k] by {
        if k >= 4 * count {
            assert(k / 4 == count);
            assert(k % 4 == k - 4 * count);
        }
    }
    assert(left =~= right);
}

/// Decodes the frame that `video` describes out of `memory`. Nothing is
/// decoded unless the width is known, the format is supported, and every
/// pixel lies within `memory`.
pub fn decode_frame(memory: &[u32], video: VideoState) -> (frame: Result<
    TextureData,
    DecodeError,
>)
    ensures
        match decode_outcome(memory@, video) {
            Ok(expected) => frame matches Ok(f) && f@ == expected,
            Err(e) => frame == Err::<TextureData, DecodeError>(e),
        },
{
    let width = video.width;
    let height = match display_height(width) {
        Some(h) => h,
        None => {
            return Err(DecodeError::UnknownWidth);
        },
    };
    let format = video.format;
    if format != FORMAT_16BPP && format != FORMAT_32BPP {
        return Err(DecodeError::UnsupportedFormat);
    }
    let count: usize = (width as usize) * (height as usize);
    let origin = video.origin;
    let start: usize = (origin >> 2) as usize;
    assert(origin >> 2 == origin / 4) by (bit_vector);
    let needed: usize = if format == FORMAT_16BPP {
        (count + 1) / 2
    } else {
        count
    };
    if start > memory.len() || needed > memory.len() - start {
        return Err(DecodeError::OutOfBounds);
    }
    let mut pixels: Vec<u8> = Vec::new();
    let mut i: usize = 0;
    assert(decoded(memory@, start as int, format, 0) =~= Seq::<u8>::empty());
    while i < count
        invariant
            i <= count,
            count <= 640 * 480,
            format == FORMAT_16BPP || format == FORMAT_32BPP,
            start + words_needed(format, count as nat) <= memory@.len(),
            memory@.len() <= usize::MAX,
            pixels@ == decoded(memory@, start as int, format, i as nat),
        decreases count - i,
    {
        proof {
            lemma_decoded_step(memory@, start as int, format, i as nat);
        }
        let bytes = if format == FORMAT_16BPP {
            expand_rgba5551(packed_pixel(memory[start + i / 2], i))
        } else {
            expand_rgba8888(memory[start + i])
        };
        let ghost before = pixels@;
        pixels.push(bytes[0]);
        pixels.push(bytes[1]);
        pixels.push(bytes[2]);
        pixels.push(bytes[3]);
        assert(pixels@ =~= before + bytes@);
        i += 1;
    }
    Ok(
        TextureData {
            size: TextureSize { width, height },
            bytes_per_row: 4 * width,
            rows_per_image: height,
            rgba: pixels,
        },
    )
}

} // verus!
