//! The bytes that a buffer write hands to the GPU: the words and indices as
//! they lie in this machine's memory.

use crate::dispatch::Effect;
use vstd::prelude::*;
use vstd::slice::slice_to_vec;

verus! {

/// Byte `k` of a 32-bit word, counted from the least significant.
pub open spec fn word_byte(word: u32, k: int) -> u8 {
    if k == 0 {
        (word % 0x100) as u8
    } else if k == 1 {
        ((word / 0x100) % 0x100) as u8
    } else if k == 2 {
        ((word / 0x1_0000) % 0x100) as u8
    } else {
        (word / 0x100_0000) as u8
    }
}

/// Byte `k` of a 16-bit index, counted from the less significant.
pub open spec fn index_byte(index: u16, k: int) -> u8 {
    if k == 0 {
        (index % 0x100) as u8
    } else {
        (index / 0x100) as u8
    }
}

/// `bytes` are `words` one after the other, each with its least significant
/// byte first.
pub open spec fn little_endian_words(words: Seq<u32>, bytes: Seq<u8>) -> bool {
    &&& bytes.len() == 4 * words.len()
    &&& forall|i: int| 0 <= i < bytes.len() ==> bytes[i] == word_byte(words[i / 4], i % 4)
}

/// `bytes` are `words` one after the other, each with its most significant
/// byte first.
pub open spec fn big_endian_words(words: Seq<u32>, bytes: Seq<u8>) -> bool {
    &&& bytes.len() == 4 * words.len()
    &&& forall|i: int| 0 <= i < bytes.len() ==> bytes[i] == word_byte(words[i / 4], 3 - i % 4)
}

/// `bytes` are `words` in the byte order of some machine.
pub open spec fn native_words(words: Seq<u32>, bytes: Seq<u8>) -> bool {
    little_endian_words(words, bytes) || big_endian_words(words, bytes)
}

/// `bytes` are `indices` one after the other, each with its less significant
/// byte first.
pub open spec fn little_endian_indices(indices: Seq<u16>, bytes: Seq<u8>) -> bool {
    &&& bytes.len() == 2 * indices.len()
    &&& forall|i: int| 0 <= i < bytes.len() ==> bytes[i] == index_byte(indices[i / 2], i % 2)
}

/// `bytes` are `indices` one after the other, each with its more significant
/// byte first.
pub open spec fn big_endian_indices(indices: Seq<u16>, bytes: Seq<u8>) -> bool {
    &&& bytes.len() == 2 * indices.len()
    &&& forall|i: int| 0 <= i < bytes.len() ==> bytes[i] == index_byte(indices[i / 2], 1 - i % 2)
}

/// `bytes` are `indices` in the byte order of some machine.
pub open spec fn native_indices(indices: Seq<u16>, bytes: Seq<u8>) -> bool {
    little_endian_indices(indices, bytes) || big_endian_indices(indices, bytes)
}

/// A word is made up of its four bytes.
pub proof fn lemma_word_of_bytes(word: u32)
    ensures
        word == word_byte(word, 0) + 0x100 * word_byte(word, 1) + 0x1_0000 * word_byte(word, 2)
            + 0x100_0000 * word_byte(word, 3),
{
}

/// Bytes in one byte order stand for one run of words only: what the GPU
/// is handed holds every bit of every word.
pub proof fn lemma_bytes_pin_words(first: Seq<u32>, second: Seq<u32>, bytes: Seq<u8>)
    requires
        (little_endian_words(first, bytes) && little_endian_words(second, bytes)) || (
        big_endian_words(first, bytes) && big_endian_words(second, bytes)),
    ensures
        first == second,
{
    assert(first.len() == second.len());
    assert forall|i: int| 0 <= i < first.len() implies first[i] == second[i] by {
        lemma_word_of_bytes(first[i]);
        lemma_word_of_bytes(second[i]);
        // the four bytes at the place of word `i` are bytes of both words
        let at = |k: int| bytes[4 * i + k];
        assert((4 * i + 0) / 4 == i && (4 * i + 0) % 4 == 0 && at(0) == bytes[4 * i + 0]);
        assert((4 * i + 1) / 4 == i && (4 * i + 1) % 4 == 1 && at(1) == bytes[4 * i + 1]);
        assert((4 * i + 2) / 4 == i && (4 * i + 2) % 4 == 2 && at(2) == bytes[4 * i + 2]);
        assert((4 * i + 3) / 4 == i && (4 * i + 3) % 4 == 3 && at(3) == bytes[4 * i + 3]);
    }
    assert(first =~= second);
}

/// `bytemuck::cast_slice` from `u32` to `u8`. Trusted: the result is the
/// memory of `words` seen as bytes, so it has four bytes for each word, in
/// the order of the words, and within each word in the byte order of the
/// machine, which is the same for all of them. The cast cannot fail, as
/// bytes need no alignment and four of them fill a word.
#[verifier::external_body]
fn cast_words(words: &[u32]) -> (bytes: &[u8])
    ensures
        native_words(words@, bytes@),
{
    bytemuck::cast_slice(words)
}

/// `bytemuck::cast_slice` from `u16` to `u8`. Trusted: the result is the
/// memory of `indices` seen as bytes, two for each index, in the order of
/// the indices and within each in the byte order of the machine. The cast
/// cannot fail.
#[verifier::external_body]
fn cast_indices(indices: &[u16]) -> (bytes: &[u8])
    ensures
        native_indices(indices@, bytes@),
{
    bytemuck::cast_slice(indices)
}

/// The bytes of `words` as the GPU reads them.
pub fn word_bytes(words: &[u32]) -> (bytes: Vec<u8>)
    ensures
        native_words(words@, bytes@),
        bytes@.len() == 4 * words@.len(),
{
    slice_to_vec(cast_words(words))
}

/// The bytes of `indices` as the GPU reads them.
pub fn index_bytes(indices: &[u16]) -> (bytes: Vec<u8>)
    ensures
        native_indices(indices@, bytes@),
        bytes@.len() == 2 * indices@.len(),
{
    slice_to_vec(cast_indices(indices))
}

/// The bytes that a buffer write puts at the start of its buffer; `None` for
/// an effect that writes no buffer.
pub fn upload_bytes(effect: &Effect) -> (bytes: Option<Vec<u8>>)
    ensures
        match *effect {
            Effect::WriteVertices(words) => bytes matches Some(b) && native_words(words@, b@),
            Effect::WriteMatrices(words) => bytes matches Some(b) && native_words(words@, b@),
            Effect::WriteIndices(indices) => bytes matches Some(b) && native_indices(
                indices@,
                b@,
            ),
            _ => bytes is None,
        },
{
    match effect {
        Effect::WriteVertices(words) => Some(word_bytes(words.as_slice())),
        Effect::WriteMatrices(words) => Some(word_bytes(words.as_slice())),
        Effect::WriteIndices(indices) => Some(index_bytes(indices.as_slice())),
        _ => None,
    }
}

} // verus!
