use hle_render::matrix::{
    pack_matrices, Matrix, MatrixTable, MvpPacked, TableOverflow, MATRIX_BUFFER_BYTES,
    MATRIX_SLOTS, MATRIX_STRIDE, PAYLOAD_WORDS, SLOT_WORDS,
};

fn sample(seed: u32) -> Matrix {
    [
        [seed, seed + 1, seed + 2, seed + 3],
        [seed + 4, seed + 5, seed + 6, seed + 7],
        [seed + 8, seed + 9, seed + 10, seed + 11],
        [seed + 12, seed + 13, seed + 14, seed + 15],
    ]
}

#[test]
fn slot_size_is_the_stride() {
    assert_eq!(MvpPacked::size(), 256);
    assert_eq!(MvpPacked::size(), MATRIX_STRIDE);
    assert_eq!(std::mem::size_of::<MvpPacked>(), MvpPacked::size());
    assert_eq!(SLOT_WORDS * 4, MATRIX_STRIDE);
    assert_eq!(PAYLOAD_WORDS, 16);
    assert_eq!(MATRIX_SLOTS, 1024);
    assert_eq!(MATRIX_BUFFER_BYTES, 1024 * 256);
}

#[test]
fn offset_of_is_index_times_stride() {
    assert_eq!(MvpPacked::offset_of(0), 0);
    assert_eq!(MvpPacked::offset_of(1), 256);
    assert_eq!(MvpPacked::offset_of(2), 512);
    assert_eq!(MvpPacked::offset_of(1023), 261_888);
    for index in 0..MATRIX_SLOTS {
        assert_eq!(MvpPacked::offset_of(index) as usize, index * 256);
    }
}

#[test]
fn packed_slot_keeps_the_matrix() {
    let identity: Matrix = [
        [1f32.to_bits(), 0, 0, 0],
        [0, 1f32.to_bits(), 0, 0],
        [0, 0, 1f32.to_bits(), 0],
        [0, 0, 0, 1f32.to_bits()],
    ];
    assert_eq!(MvpPacked::new(identity).payload(), identity);
}

#[test]
fn pack_matrices_pads_each_slot() {
    let words = pack_matrices(&[sample(100), sample(200)]);
    assert_eq!(words.len(), 128);
    let expected_first: Vec<u32> = (100..116).collect();
    let expected_second: Vec<u32> = (200..216).collect();
    assert_eq!(&words[0..16], expected_first.as_slice());
    assert!(words[16..64].iter().all(|w| *w == 0));
    assert_eq!(&words[64..80], expected_second.as_slice());
    assert!(words[80..128].iter().all(|w| *w == 0));
    assert!(pack_matrices(&[]).is_empty());
}

#[test]
fn new_table_is_zeroed() {
    let table = MatrixTable::new();
    assert_eq!(table.read(0), Some([[0u32; 4]; 4]));
    assert_eq!(table.read(1023), Some([[0u32; 4]; 4]));
    assert_eq!(table.read(1024), None);
}

#[test]
fn write_then_read_gives_back_the_matrices() {
    let mut table = MatrixTable::new();
    let nan_bits: Matrix = [[0x7FC0_0001; 4], [0xFFFF_FFFF; 4], [0x8000_0000; 4], [1; 4]];
    assert_eq!(table.write(3, &[sample(1), nan_bits, sample(3)]), Ok(()));
    assert_eq!(table.read(2), Some([[0u32; 4]; 4]));
    assert_eq!(table.read(3), Some(sample(1)));
    assert_eq!(table.read(4), Some(nan_bits));
    assert_eq!(table.read(5), Some(sample(3)));
    assert_eq!(table.read(6), Some([[0u32; 4]; 4]));
}

#[test]
fn write_to_the_last_slot_fits() {
    let mut table = MatrixTable::new();
    assert_eq!(table.write(1023, &[sample(8)]), Ok(()));
    assert_eq!(table.read(1023), Some(sample(8)));
    assert_eq!(table.write(1024, &[]), Ok(()));
}

#[test]
fn write_past_the_end_is_rejected() {
    let mut table = MatrixTable::new();
    assert_eq!(table.write(0, &[sample(5)]), Ok(()));
    assert_eq!(table.write(1023, &[sample(6), sample(7)]), Err(TableOverflow {}));
    assert_eq!(table.write(1024, &[sample(6)]), Err(TableOverflow {}));
    assert_eq!(table.write(usize::MAX, &[sample(6)]), Err(TableOverflow {}));
    assert_eq!(table.write(1025, &[]), Err(TableOverflow {}));
    assert_eq!(table.read(0), Some(sample(5)));
    assert_eq!(table.read(1023), Some([[0u32; 4]; 4]));
}

#[test]
fn new_slot_keeps_every_bit_and_pads_with_zeros() {
    let odd: Matrix = [
        [f32::NAN.to_bits(), (-0.0f32).to_bits(), 0x7FC0_0001, 0xFFFF_FFFF],
        [0x8000_0000, 0x0000_0001, f32::INFINITY.to_bits(), f32::NEG_INFINITY.to_bits()],
        [1.5f32.to_bits(), 2.5f32.to_bits(), 3.5f32.to_bits(), 4.5f32.to_bits()],
        [5, 6, 7, 8],
    ];
    let packed = MvpPacked::new(odd);
    assert_eq!(packed.payload(), odd);
    assert_eq!(packed.padding_words(), [0u64; 24]);
    assert_eq!(packed.payload()[0][1], 0x8000_0000);
    assert_eq!(packed.payload()[1][0], 0x8000_0000);
    assert_eq!(packed.payload()[3][0], 5);
}

#[test]
fn table_slots_are_zero_padded() {
    let mut table = MatrixTable::new();
    assert_eq!(table.write(7, &[sample(40)]), Ok(()));
    let written = table.read_slot(7).unwrap();
    assert_eq!(written.payload(), sample(40));
    assert_eq!(written.padding_words(), [0u64; 24]);
    let untouched = table.read_slot(8).unwrap();
    assert_eq!(untouched.payload(), [[0u32; 4]; 4]);
    assert_eq!(untouched.padding_words(), [0u64; 24]);
    assert!(table.read_slot(1023).is_some());
    assert!(table.read_slot(1024).is_none());
}
