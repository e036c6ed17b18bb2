use hle_render::dispatch::{Effect, PassSkip};
use hle_render::upload::{index_bytes, upload_bytes, word_bytes};
use hle_render::vertex::{pack_vertices, quad_indices, quad_vertices};

fn native_words(words: &[u32]) -> Vec<u8> {
    let mut bytes = Vec::new();
    for w in words {
        bytes.extend_from_slice(&w.to_ne_bytes());
    }
    bytes
}

fn native_indices(indices: &[u16]) -> Vec<u8> {
    let mut bytes = Vec::new();
    for i in indices {
        bytes.extend_from_slice(&i.to_ne_bytes());
    }
    bytes
}

#[test]
fn word_bytes_are_the_words_in_memory_order() {
    let words = [0x0102_0304u32, 0xAABB_CCDD, 0, 0x3F80_0000];
    let bytes = word_bytes(&words);
    assert_eq!(bytes.len(), 16);
    assert_eq!(bytes, native_words(&words));
    let little = vec![4u8, 3, 2, 1, 0xDD, 0xCC, 0xBB, 0xAA, 0, 0, 0, 0, 0, 0, 0x80, 0x3F];
    let big = vec![1u8, 2, 3, 4, 0xAA, 0xBB, 0xCC, 0xDD, 0, 0, 0, 0, 0x3F, 0x80, 0, 0];
    assert!(bytes == little || bytes == big);
    assert!(word_bytes(&[]).is_empty());
}

#[test]
fn index_bytes_are_the_indices_in_memory_order() {
    let indices = [0x0102u16, 0xFFEE, 7];
    let bytes = index_bytes(&indices);
    assert_eq!(bytes.len(), 6);
    assert_eq!(bytes, native_indices(&indices));
    let little = vec![2u8, 1, 0xEE, 0xFF, 7, 0];
    let big = vec![1u8, 2, 0xFF, 0xEE, 0, 7];
    assert!(bytes == little || bytes == big);
    assert!(index_bytes(&[]).is_empty());
}

#[test]
fn upload_bytes_of_buffer_writes() {
    let words = vec![1u32, 2, 0xFFFF_FFFF];
    assert_eq!(upload_bytes(&Effect::WriteVertices(words.clone())), Some(native_words(&words)));
    assert_eq!(upload_bytes(&Effect::WriteMatrices(words.clone())), Some(native_words(&words)));
    let indices = vec![2u16, 1, 0, 1, 3, 2];
    assert_eq!(upload_bytes(&Effect::WriteIndices(indices.clone())), Some(native_indices(&indices)));
}

#[test]
fn upload_bytes_of_other_effects() {
    assert_eq!(upload_bytes(&Effect::Nothing), None);
    assert_eq!(upload_bytes(&Effect::FrameComplete), None);
    assert_eq!(upload_bytes(&Effect::PassSkipped(PassSkip::NoColorTarget)), None);
}

#[test]
fn quad_geometry_bytes() {
    let vertices = quad_vertices();
    let words = pack_vertices(&vertices);
    assert_eq!(words.len(), 36);
    assert_eq!(word_bytes(&words).len(), 4 * 36);
    let floats: Vec<f32> = words.iter().map(|w| f32::from_bits(*w)).collect();
    assert_eq!(&floats[0..5], &[-1.0, 1.0, 0.0, 0.0, 0.0]);
    assert_eq!(&floats[9..14], &[1.0, 1.0, 0.0, 1.0, 0.0]);
    assert_eq!(&floats[18..23], &[-1.0, -1.0, 0.0, 0.0, 1.0]);
    assert_eq!(&floats[27..32], &[1.0, -1.0, 0.0, 1.0, 1.0]);
    assert_eq!(quad_indices(), [2, 1, 0, 1, 3, 2]);
    assert_eq!(index_bytes(&quad_indices()).len(), 12);
}
