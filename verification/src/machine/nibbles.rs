//! Sixteen 4-bit fields packed in one 64-bit word.

use vstd::prelude::*;

verus! {

/// The `i`-th 4-bit field of `word`, counted from the low end.
pub open spec fn nibble(word: u64, i: u64) -> u64 {
    (word >> (4 * i)) & 0xF
}

/// Every field of a word is below 16, and the fields of zero are zero.
pub proof fn lemma_nibble_range(word: u64, i: u64)
    by (bit_vector)
    requires
        i < 16,
    ensures
        nibble(word, i) < 16,
        nibble(0, i) == 0,
{
}

/// Writing field `i` changes that field and no other.
pub proof fn lemma_nibble_written(word: u64, i: u64, value: u64, j: u64)
    by (bit_vector)
    requires
        i < 16,
        j < 16,
        value < 16,
    ensures
        nibble((word & !(0xFu64 << (4 * i))) | (value << (4 * i)), j) == if i == j {
            value
        } else {
            nibble(word, j)
        },
{
}

/// Shifting a word down by one field moves every field one place down and
/// clears the top one.
pub proof fn lemma_nibble_shifted(word: u64, j: u64)
    by (bit_vector)
    requires
        j < 16,
    ensures
        nibble(word >> 4, j) == if j < 15 {
            nibble(word, (j + 1) as u64)
        } else {
            0
        },
{
}

/// The `i`-th field of `word`.
pub fn get_nibble(word: u64, i: u8) -> (value: u8)
    requires
        i < 16,
    ensures
        value == nibble(word, i as u64),
        value < 16,
{
    proof {
        lemma_nibble_range(word, i as u64);
    }
    ((word >> (4 * i as u64)) & 0xF) as u8
}

/// `word` with its `i`-th field set to `value`.
pub fn set_nibble(word: u64, i: u8, value: u8) -> (written: u64)
    requires
        i < 16,
        value < 16,
    ensures
        forall|j: u64|
            j < 16 ==> #[trigger] nibble(written, j) == if j == i {
                value as u64
            } else {
                nibble(word, j)
            },
{
    let written = (word & !(0xFu64 << (4 * i as u64))) | ((value as u64) << (4 * i as u64));
    assert forall|j: u64| j < 16 implies #[trigger] nibble(written, j) == if j == i {
        value as u64
    } else {
        nibble(word, j)
    } by {
        lemma_nibble_written(word, i as u64, value as u64, j);
    }
    written
}

/// `word` without its lowest field: every other field moves one place down.
pub fn drop_nibble(word: u64) -> (shifted: u64)
    ensures
        forall|j: u64|
            j < 16 ==> #[trigger] nibble(shifted, j) == if j < 15 {
                nibble(word, (j + 1) as u64)
            } else {
                0
            },
{
    let shifted = word >> 4;
    assert forall|j: u64| j < 16 implies #[trigger] nibble(shifted, j) == if j < 15 {
        nibble(word, (j + 1) as u64)
    } else {
        0
    } by {
        lemma_nibble_shifted(word, j);
    }
    shifted
}

} // verus!
