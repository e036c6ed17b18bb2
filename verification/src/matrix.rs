//! The matrix uniform table: a fixed number of transform slots, each padded to
//! the stride that a dynamic uniform offset can select.

use crate::vertex::F32_ONE;
use vstd::prelude::*;

verus! {

/// Number of slots in the table.
pub const MATRIX_SLOTS: usize = 1024;

/// Bytes from the start of one slot to the start of the next.
pub const MATRIX_STRIDE: usize = 256;

/// Size of the table in bytes: `MATRIX_SLOTS` slots of `MATRIX_STRIDE` bytes.
pub const MATRIX_BUFFER_BYTES: u64 = 262_144;

/// 32-bit words in one slot, payload and padding together.
pub const SLOT_WORDS: usize = 64;

/// 32-bit words of payload at the start of a slot.
pub const PAYLOAD_WORDS: usize = 16;

/// A 4x4 transform, column by column. Each entry is the bit pattern of a
/// 32-bit float; the table moves the patterns and never computes with them.
pub type Matrix = [[u32; 4]; 4];

/// The identity transform.
pub open spec fn identity() -> Matrix {
    [[F32_ONE, 0, 0, 0], [0, F32_ONE, 0, 0], [0, 0, F32_ONE, 0], [0, 0, 0, F32_ONE]]
}

/// The identity transform.
pub fn identity_matrix() -> (m: Matrix)
    ensures
        m == identity(),
{
    [[F32_ONE, 0, 0, 0], [0, F32_ONE, 0, 0], [0, 0, F32_ONE, 0], [0, 0, 0, F32_ONE]]
}

/// Every entry of `m` is the pattern of positive zero.
pub open spec fn is_zero_matrix(m: Matrix) -> bool {
    forall|c: int, r: int| 0 <= c < 4 && 0 <= r < 4 ==> (#[trigger] m[c][r]) == 0
}

/// One slot of the table: the transform followed by padding up to the
/// stride. The GPU never reads the padding; it is kept at zero.
#[derive(Clone, Copy, Debug)]
pub struct MvpPacked {
    mvp_matrix: Matrix,
    padding: [u64; 24],
}

/// The `j`-th word of the slot that holds `m`: the payload in column-major
/// order, then zeros.
pub open spec fn slot_word(m: Matrix, j: int) -> u32 {
    if 0 <= j < PAYLOAD_WORDS as int {
        m[j / 4][j % 4]
    } else {
        0
    }
}

/// The words that a run of matrices occupies in the table, slot after slot.
pub open spec fn packed_words(matrices: Seq<Matrix>) -> Seq<u32> {
    Seq::new(
        matrices.len() * SLOT_WORDS as nat,
        |k: int| slot_word(matrices[k / SLOT_WORDS as int], k % SLOT_WORDS as int),
    )
}

impl MvpPacked {
    /// The transform that the slot holds.
    pub closed spec fn matrix(self) -> Matrix {
        self.mvp_matrix
    }

    /// The 64-bit words that fill the slot up behind the transform.
    pub closed spec fn padding(self) -> Seq<u64> {
        self.padding@
    }

    /// The slot has its 24 words of padding, and all of them are zero.
    pub open spec fn zero_padded(self) -> bool {
        &&& self.padding().len() == 24
        &&& forall|k: int| 0 <= k < 24 ==> self.padding()[k] == 0
    }

    /// Pads `mat` to a full slot: the transform as it is, entry for entry,
    /// and zeros behind it.
    pub fn new(mat: Matrix) -> (packed: MvpPacked)
        ensures
            packed.matrix() == mat,
            packed.padding().len() == 24,
            forall|k: int| 0 <= k < 24 ==> packed.padding()[k] == 0,
    {
        MvpPacked { mvp_matrix: mat, padding: [0;24] }
    }

    /// The words that fill the slot up behind the transform.
    pub fn padding_words(&self) -> (words: [u64; 24])
        ensures
            words@ == self.padding(),
    {
        self.padding
    }

    /// The transform that the slot holds.
    pub fn payload(&self) -> (mat: Matrix)
        ensures
            mat == self.matrix(),
    {
        self.mvp_matrix
    }

    /// Size of a slot in bytes: sixteen 4-byte entries and twenty-four 8-byte
    /// words of padding.
    pub fn size() -> (bytes: usize)
        ensures
            bytes == MATRIX_STRIDE,
    {
        16 * 4 + 24 * 8
    }

    /// Byte offset of slot `index` from the start of the table.
    pub fn offset_of(index: usize) -> (offset: u32)
        requires
            index < MATRIX_SLOTS,
        ensures
            offset == index * MATRIX_STRIDE,
    {
        (index * Self::size()) as u32
    }
}

/// The table has room for exactly its slots, and a slot's words fill its
/// stride.
pub proof fn lemma_table_size()
    ensures
        MATRIX_BUFFER_BYTES == MATRIX_SLOTS * MATRIX_STRIDE,
        MATRIX_STRIDE == 4 * SLOT_WORDS,
{
}

/// The words of one slot that holds `m`.
pub open spec fn slot_words(m: Matrix) -> Seq<u32> {
    Seq::new(SLOT_WORDS as nat, |j: int| slot_word(m, j))
}

/// Appending a matrix to a run appends its slot to the run's words.
pub proof fn lemma_packed_words_push(matrices: Seq<Matrix>, m: Matrix)
    ensures
        packed_words(matrices.push(m)) == packed_words(matrices) + slot_words(m),
{
    let left = packed_words(matrices.push(m));
    let right = packed_words(matrices) + slot_words(m);
    let n = matrices.len() as int;
    assert(left.len() == right.len());
    assert forall|k: int| 0 <= k < left.len() implies left[k] == right[k] by {
        if k < n * 64 {
            assert(k / 64 < n);
            assert(matrices.push(m)[k / 64] == matrices[k / 64]);
        } else {
            assert(k / 64 == n);
            assert(k % 64 == k - n * 64);
            assert(matrices.push(m)[k / 64] == m);
        }
    }
    assert(left =~= right);
}

/// Appends the slot that holds `m` to `out`.
fn push_slot(out: &mut Vec<u32>, m: &Matrix)
    ensures
        final(out)@ == old(out)@ + slot_words(*m),
{
    let ghost before = out@;
    let mut j: usize = 0;
    while j < SLOT_WORDS
        invariant
            j <= SLOT_WORDS,
            out@.len() == before.len() + j,
            forall|k: int| 0 <= k < before.len() ==> out@[k] == before[k],
            forall|k: int| 0 <= k < j ==> out@[before.len() + k] == slot_word(*m, k),
        decreases SLOT_WORDS - j,
    {
        let word: u32 = if j < PAYLOAD_WORDS {
            m[j / 4][j % 4]
        } else {
            0
        };
        out.push(word);
        j += 1;
    }
    assert(out@ =~= before + slot_words(*m));
}

/// Lays `matrices` out as table words, slot after slot.
pub fn pack_matrices(matrices: &[Matrix]) -> (words: Vec<u32>)
    ensures
        words@ == packed_words(matrices@),
{
    let mut words: Vec<u32> = Vec::new();
    let mut i: usize = 0;
    assert(matrices@.take(0) =~= Seq::<Matrix>::empty());
    assert(packed_words(Seq::<Matrix>::empty()) =~= Seq::<u32>::empty());
    while i < matrices.len()
        invariant
            i <= matrices@.len(),
            words@ == packed_words(matrices@.take(i as int)),
        decreases matrices@.len() - i,
    {
        proof {
            lemma_packed_words_push(matrices@.take(i as int), matrices@[i as int]);
            assert(matrices@.take(i as int).push(matrices@[i as int]) =~= matrices@.take(i + 1));
        }
        push_slot(&mut words, &matrices[i]);
        i += 1;
    }
    assert(matrices@.take(i as int) =~= matrices@);
    words
}

/// A write that does not fit into the table.
#[derive(Clone, Copy, Debug, PartialEq, Eq)]
pub struct TableOverflow {}

/// The table after `matrices` were written from slot `start` on.
pub open spec fn written(table: Seq<Matrix>, start: int, matrices: Seq<Matrix>) -> Seq<Matrix> {
    Seq::new(
        table.len(),
        |i: int|
            if start <= i < start + matrices.len() {
                matrices[i - start]
            } else {
                table[i]
            },
    )
}

/// The matrix uniform table as the host sees it: the content of every slot.
pub struct MatrixTable {
    slots: Vec<MvpPacked>,
}

impl View for MatrixTable {
    type V = Seq<Matrix>;

    /// The transforms in the slots, by slot number.
    closed spec fn view(&self) -> Seq<Matrix> {
        Seq::new(self.slots@.len(), |i: int| self.slots@[i].matrix())
    }
}

impl MatrixTable {
    /// The slots of the table, by slot number.
    pub closed spec fn slots(&self) -> Seq<MvpPacked> {
        self.slots@
    }

    /// The table has all its slots, each padded with zeros.
    pub closed spec fn wf(&self) -> bool {
        &&& self.slots@.len() == MATRIX_SLOTS
        &&& forall|i: int| 0 <= i < self.slots@.len() ==> (#[trigger] self.slots@[i]).zero_padded()
    }

    /// In a well-formed table every slot holds the transform that the view
    /// shows for it, and zeros behind it.
    pub proof fn lemma_slots(&self)
        requires
            self.wf(),
        ensures
            self.slots().len() == MATRIX_SLOTS,
            forall|i: int|
                0 <= i < MATRIX_SLOTS ==> (#[trigger] self.slots()[i]).matrix() == self@[i]
                    && self.slots()[i].zero_padded(),
    {
    }

    /// A well-formed table has exactly `MATRIX_SLOTS` slots.
    pub proof fn lemma_len(&self)
        requires
            self.wf(),
        ensures
            self@.len() == MATRIX_SLOTS,
    {
    }

    /// A table whose slots all hold the zero matrix.
    pub fn new() -> (table: MatrixTable)
        ensures
            table.wf(),
            table@.len() == MATRIX_SLOTS,
            forall|i: int| 0 <= i < MATRIX_SLOTS ==> is_zero_matrix(#[trigger] table@[i]),
    {
        let zero: Matrix = [[0u32;4];4];
        let mut slots: Vec<MvpPacked> = Vec::new();
        let mut i: usize = 0;
        while i < MATRIX_SLOTS
            invariant
                i <= MATRIX_SLOTS,
                slots@.len() == i,
                is_zero_matrix(zero),
                forall|k: int|
                    0 <= k < i ==> (#[trigger] slots@[k]).matrix() == zero
                        && slots@[k].zero_padded(),
            decreases MATRIX_SLOTS - i,
        {
            slots.push(MvpPacked::new(zero));
            i += 1;
        }
        MatrixTable { slots }
    }

    /// Overwrites the slots `[start_slot, start_slot + matrices.len())`. A
    /// write that would run past the last slot is rejected and leaves the
    /// table as it was.
    pub fn write(&mut self, start_slot: usize, matrices: &[Matrix]) -> (done: Result<
        (),
        TableOverflow,
    >)
        requires
            old(self).wf(),
        ensures
            final(self).wf(),
            done is Ok <==> start_slot + matrices@.len() <= MATRIX_SLOTS,
            done is Ok ==> final(self)@ == written(old(self)@, start_slot as int, matrices@),
            done is Err ==> final(self)@ == old(self)@,
    {
        if start_slot > MATRIX_SLOTS || matrices.len() > MATRIX_SLOTS - start_slot {
            return Err(TableOverflow {});
        }
        let ghost before = self@;
        let mut i: usize = 0;
        while i < matrices.len()
            invariant
                i <= matrices@.len(),
                start_slot + matrices@.len() <= MATRIX_SLOTS,
                self.wf(),
                before.len() == MATRIX_SLOTS,
                self@ == written(before, start_slot as int, matrices@.take(i as int)),
            decreases matrices@.len() - i,
        {
            let ghost prev = self@;
            self.slots[start_slot + i] = MvpPacked::new(matrices[i]);
            proof {
                let next = written(before, start_slot as int, matrices@.take(i + 1));
                assert forall|k: int| 0 <= k < next.len() implies self@[k] == next[k] by {
                    if k == start_slot + i {
                    } else {
                        assert(self@[k] == prev[k]);
                    }
                }
                assert(self@ =~= next);
            }
            i += 1;
        }
        assert(matrices@.take(i as int) =~= matrices@);
        Ok(())
    }

    /// The whole of `slot`, padding and all, or `None` past the end of the
    /// table.
    pub fn read_slot(&self, slot: usize) -> (packed: Option<MvpPacked>)
        requires
            self.wf(),
        ensures
            packed == if slot < MATRIX_SLOTS {
                Some(self.slots()[slot as int])
            } else {
                None
            },
            packed matches Some(p) ==> p.matrix() == self@[slot as int] && p.zero_padded(),
    {
        if slot < MATRIX_SLOTS {
            Some(self.slots[slot])
        } else {
            None
        }
    }

    /// The transform in `slot`, or `None` past the end of the table.
    pub fn read(&self, slot: usize) -> (mat: Option<Matrix>)
        requires
            self.wf(),
        ensures
            mat == if slot < MATRIX_SLOTS {
                Some(self@[slot as int])
            } else {
                None
            },
    {
        if slot < MATRIX_SLOTS {
            Some(self.slots[slot].payload())
        } else {
            None
        }
    }
}

} // verus!
