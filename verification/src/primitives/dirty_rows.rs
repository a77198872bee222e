use vstd::prelude::*;

verus! {

/// Whether bit `i` of a word is set.
pub open spec fn bit_set(word: u64, i: u64) -> bool {
    (word >> i) & 1 == 1
}

/// Whether a row is marked in a mask of four words: row 0 is the lowest bit of the first word.
pub open spec fn mask_has(mask: Seq<u64>, row: int) -> bool {
    0 <= row < 256 && bit_set(mask[row / 64], (row % 64) as u64)
}

proof fn set_bit(word: u64, b: u64, i: u64)
    by (bit_vector)
    requires
        b < 64,
        i < 64,
    ensures
        ((word | (1u64 << b)) >> i) & 1 == 1 <==> (i == b || (word >> i) & 1 == 1),
{
}

proof fn no_bit(i: u64)
    by (bit_vector)
    requires
        i < 64,
    ensures
        (0u64 >> i) & 1 == 0,
        (0xffff_ffff_ffff_ffffu64 >> i) & 1 == 1,
{
}

proof fn some_bit(word: u64, n: u64)
    requires
        word != 0,
        n <= 64,
        n < 64 ==> word >> n == 0,
    ensures
        exists|i: u64| i < 64 && bit_set(word, i),
    decreases n,
{
    if n == 0 {
        assert(word >> 0u64 == word) by (bit_vector);
    } else {
        let i = (n - 1) as u64;
        if !bit_set(word, i) {
            assert(word >> i == 0) by (bit_vector)
                requires
                    i < 64,
                    i < 63 ==> word >> ((i + 1) as u64) == 0,
                    (word >> i) & 1 != 1,
            ;
            some_bit(word, i);
        }
    }
}

/// Bitmask tracking which rows (0..255) need re-rendering: four words of 64 bits.
pub struct DirtyRows {
    bits: [u64; 4],
}

impl View for DirtyRows {
    type V = Set<int>;

    /// The rows marked.
    closed spec fn view(&self) -> Set<int> {
        Set::new(|row: int| mask_has(self.bits@, row))
    }
}

impl DirtyRows {
    /// No row is dirty at first.
    pub fn new() -> (rows: DirtyRows)
        ensures
            rows@ == Set::<int>::empty(),
    {
        let rows = DirtyRows { bits: [0, 0, 0, 0] };
        proof {
            assert forall|row: int| !mask_has(rows.bits@, row) by {
                if 0 <= row < 256 {
                    no_bit((row % 64) as u64);
                }
            }
            assert(rows@ =~= Set::<int>::empty());
        }
        rows
    }

    /// Mark a single row as dirty (0..255). Rows >= 256 are ignored.
    pub fn mark(&mut self, row: u16)
        ensures
            final(self)@ == (if row < 256 {
                old(self)@.insert(row as int)
            } else {
                old(self)@
            }),
    {
        let ghost before = self@;
        let ghost words = self.bits@;
        if row < 256 {
            let bucket: usize = (row / 64) as usize;
            let bit: u64 = (row % 64) as u64;
            self.bits[bucket] = self.bits[bucket] | (1u64 << bit);
            proof {
                assert forall|r: int| mask_has(self.bits@, r) == (mask_has(words, r) || r
                    == row) by {
                    if 0 <= r < 256 {
                        set_bit(words[bucket as int], bit, (r % 64) as u64);
                    }
                }
                assert forall|r: int| self@.contains(r) == before.insert(row as int).contains(
                    r,
                ) by {
                    assert(before.contains(r) == mask_has(words, r));
                }
                assert(self@ =~= before.insert(row as int));
            }
        }
    }

    /// Mark all rows as dirty.
    pub fn mark_all(&mut self)
        ensures
            final(self)@ == Set::new(|row: int| 0 <= row < 256),
    {
        self.bits = [u64::MAX, u64::MAX, u64::MAX, u64::MAX];
        proof {
            assert forall|r: int| mask_has(self.bits@, r) == (0 <= r < 256) by {
                if 0 <= r < 256 {
                    no_bit((r % 64) as u64);
                }
            }
            assert(self@ =~= Set::new(|row: int| 0 <= row < 256));
        }
    }

    /// Drain all dirty bits, returning the bitmasks.
    pub fn drain(&mut self) -> (mask: [u64; 4])
        ensures
            forall|row: int| #[trigger] mask_has(mask@, row) == old(self)@.contains(row),
            final(self)@ == Set::<int>::empty(),
    {
        let mask = self.bits;
        *self = DirtyRows::new();
        mask
    }

    /// Check if any row is dirty.
    pub fn any_dirty(&self) -> (dirty: bool)
        ensures
            dirty == !(self@ =~= Set::<int>::empty()),
    {
        let dirty = self.bits[0] != 0 || self.bits[1] != 0 || self.bits[2] != 0 || self.bits[3]
            != 0;
        proof {
            if dirty {
                let b: int = if self.bits@[0] != 0 {
                    0
                } else if self.bits@[1] != 0 {
                    1
                } else if self.bits@[2] != 0 {
                    2
                } else {
                    3
                };
                some_bit(self.bits@[b], 64);
                let i = choose|i: u64| i < 64 && bit_set(self.bits@[b], i);
                assert(mask_has(self.bits@, b * 64 + i));
                assert(self@.contains(b * 64 + i));
            } else {
                assert forall|r: int| !mask_has(self.bits@, r) by {
                    if 0 <= r < 256 {
                        no_bit((r % 64) as u64);
                    }
                }
            }
        }
        dirty
    }
}

impl Default for DirtyRows {
    fn default() -> (rows: DirtyRows)
        ensures
            rows@ == Set::<int>::empty(),
    {
        DirtyRows::new()
    }
}

/// The rows of a mask are counted through its four words, from the lowest bit of the first one on.
pub proof fn masks_count_rows_from_the_lowest_bit(mask: Seq<u64>, word: int, bit: u64)
    requires
        mask.len() == 4,
        0 <= word < 4,
        bit < 64,
    ensures
        mask_has(mask, 64 * word + bit) <==> mask[word] & (1u64 << bit) != 0,
        !mask_has(mask, -1),
        !mask_has(mask, 256),
{
    assert((64 * word + bit) / 64 == word && (64 * word + bit) % 64 == bit as int);
    let w: u64 = mask[word];
    assert(((w >> bit) & 1 == 1) == (w & (1u64 << bit) != 0)) by (bit_vector)
        requires
            bit < 64,
    ;
}

} // verus!
