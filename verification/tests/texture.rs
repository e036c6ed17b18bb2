use hle_render::cache::TextureSize;
use hle_render::texture::{load_texture, texture_from_rgba, TextureData, TextureError};

const RGBA_2X2: [u8; 79] = [
    137, 80, 78, 71, 13, 10, 26, 10, 0, 0, 0, 13, 73, 72, 68, 82, 0, 0, 0, 2, 0, 0, 0, 2, 8, 6, 0,
    0, 0, 114, 182, 13, 36, 0, 0, 0, 22, 73, 68, 65, 84, 120, 218, 99, 248, 207, 192, 240, 31, 8,
    27, 24, 64, 52, 151, 136, 156, 6, 0, 54, 169, 4, 225, 100, 219, 77, 126, 0, 0, 0, 0, 73, 69,
    78, 68, 174, 66, 96, 130,
];

const RGB_3X1: [u8; 75] = [
    137, 80, 78, 71, 13, 10, 26, 10, 0, 0, 0, 13, 73, 72, 68, 82, 0, 0, 0, 3, 0, 0, 0, 1, 8, 2, 0,
    0, 0, 148, 130, 131, 227, 0, 0, 0, 18, 73, 68, 65, 84, 120, 218, 99, 96, 100, 98, 102, 97, 101,
    99, 231, 224, 4, 0, 0, 175, 0, 46, 99, 141, 52, 94, 0, 0, 0, 0, 73, 69, 78, 68, 174, 66, 96,
    130,
];

#[test]
fn rgba_image_is_decoded_row_by_row() {
    assert_eq!(
        load_texture(&RGBA_2X2),
        Ok(TextureData {
            size: TextureSize { width: 2, height: 2 },
            bytes_per_row: 8,
            rows_per_image: 2,
            rgba: vec![255, 0, 0, 255, 0, 255, 0, 128, 0, 0, 255, 0, 10, 20, 30, 40],
        })
    );
}

#[test]
fn rgb_image_gets_full_alpha() {
    assert_eq!(
        load_texture(&RGB_3X1),
        Ok(TextureData {
            size: TextureSize { width: 3, height: 1 },
            bytes_per_row: 12,
            rows_per_image: 1,
            rgba: vec![1, 2, 3, 255, 4, 5, 6, 255, 7, 8, 9, 255],
        })
    );
}

#[test]
fn bytes_that_are_no_image_are_refused() {
    assert_eq!(load_texture(&[]), Err(TextureError::Undecodable));
    assert_eq!(load_texture(&[1, 2, 3, 4, 5, 6, 7, 8]), Err(TextureError::Undecodable));
    assert_eq!(load_texture(&RGBA_2X2[..40]), Err(TextureError::Undecodable));
}

#[test]
fn layout_of_given_pixels() {
    assert_eq!(
        texture_from_rgba(1, 2, vec![1, 2, 3, 4, 5, 6, 7, 8]),
        Ok(TextureData {
            size: TextureSize { width: 1, height: 2 },
            bytes_per_row: 4,
            rows_per_image: 2,
            rgba: vec![1, 2, 3, 4, 5, 6, 7, 8],
        })
    );
    assert_eq!(
        texture_from_rgba(0, 5, vec![]),
        Ok(TextureData {
            size: TextureSize { width: 0, height: 5 },
            bytes_per_row: 0,
            rows_per_image: 5,
            rgba: vec![],
        })
    );
}

#[test]
fn layout_errors() {
    assert_eq!(texture_from_rgba(1, 2, vec![0; 7]), Err(TextureError::SizeMismatch));
    assert_eq!(texture_from_rgba(2, 2, vec![]), Err(TextureError::SizeMismatch));
    assert_eq!(texture_from_rgba(0x4000_0000, 0, vec![]), Err(TextureError::TooWide));
    assert_eq!(texture_from_rgba(u32::MAX, 1, vec![0; 4]), Err(TextureError::TooWide));
    assert_eq!(
        texture_from_rgba(0x3FFF_FFFF, 0, vec![]),
        Ok(TextureData {
            size: TextureSize { width: 0x3FFF_FFFF, height: 0 },
            bytes_per_row: 0xFFFF_FFFC,
            rows_per_image: 0,
            rgba: vec![],
        })
    );
}
