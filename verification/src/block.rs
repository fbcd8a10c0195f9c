//! A fixed register of 32 boolean flags packed into one `u32`.

use crate::model::{toggled, uniform};
use vstd::prelude::*;

verus! {

/// Whether bit `i` of `word` is one. Positions outside `0..32` read as unset.
spec fn bit_is_set(word: u32, i: int) -> bool {
    0 <= i < 32 && (word >> (i as u32)) & 1u32 == 1u32
}

/// Testing a word against a one-bit mask reads the bit at the mask's position.
proof fn lemma_mask_reads_bit(word: u32, i: u32)
    requires
        i < 32,
    ensures
        ((word & (1u32 << i)) != 0u32) == bit_is_set(word, i as int),
{
    assert(((word & (1u32 << i)) != 0u32) == ((word >> i) & 1u32 == 1u32)) by (bit_vector)
        requires
            i < 32,
    ;
}

/// No bit of the all-zero word is set; every bit of the all-one word is.
proof fn lemma_constant_words(j: u32)
    requires
        j < 32,
    ensures
        !bit_is_set(0u32, j as int),
        bit_is_set(!0u32, j as int),
{
    assert((0u32 >> j) & 1u32 != 1u32) by (bit_vector);
    assert((!0u32 >> j) & 1u32 == 1u32) by (bit_vector)
        requires
            j < 32,
    ;
}

/// OR with a one-bit mask sets the bit at `i` and keeps every other bit.
proof fn lemma_or_mask(word: u32, i: u32, j: u32)
    requires
        i < 32,
        j < 32,
    ensures
        bit_is_set(word | (1u32 << i), j as int) == (j == i || bit_is_set(word, j as int)),
{
    assert((((word | (1u32 << i)) >> j) & 1u32 == 1u32) == (j == i || (word >> j) & 1u32 == 1u32))
        by (bit_vector)
        requires
            i < 32,
            j < 32,
    ;
}

/// AND with the complement of a one-bit mask clears the bit at `i` and keeps
/// every other bit.
proof fn lemma_and_not_mask(word: u32, i: u32, j: u32)
    requires
        i < 32,
        j < 32,
    ensures
        bit_is_set(word & !(1u32 << i), j as int) == (j != i && bit_is_set(word, j as int)),
{
    assert((((word & !(1u32 << i)) >> j) & 1u32 == 1u32) == (j != i && (word >> j) & 1u32 == 1u32))
        by (bit_vector)
        requires
            i < 32,
            j < 32,
    ;
}

/// XOR with a one-bit mask flips the bit at `i` and keeps every other bit.
proof fn lemma_xor_mask(word: u32, i: u32, j: u32)
    requires
        i < 32,
        j < 32,
    ensures
        bit_is_set(word ^ (1u32 << i), j as int) == (if j == i {
            !bit_is_set(word, j as int)
        } else {
            bit_is_set(word, j as int)
        }),
{
    assert((((word ^ (1u32 << i)) >> j) & 1u32 == 1u32) == (if j == i {
        (word >> j) & 1u32 != 1u32
    } else {
        (word >> j) & 1u32 == 1u32
    })) by (bit_vector)
        requires
            i < 32,
            j < 32,
    ;
}

/// Thirty-two flags, addressed by positions `0..32`.
#[derive(Debug, Copy, Clone)]
pub struct Bits32 {
    word: u32,
}

impl View for Bits32 {
    type V = Seq<bool>;

    /// The flags in position order; always 32 of them.
    closed spec fn view(&self) -> Seq<bool> {
        Seq::new(32, |i: int| bit_is_set(self.word, i))
    }
}

impl Bits32 {
    /// Every register holds exactly 32 flags.
    pub proof fn lemma_view_len(self)
        ensures
            self@.len() == 32,
    {
    }

    /// A register with every flag cleared.
    pub fn new() -> (r: Self)
        ensures
            r@ == uniform(32, false),
    {
        Self::zeroes()
    }

    /// A register with every flag cleared.
    pub fn zeroes() -> (r: Self)
        ensures
            r@ == uniform(32, false),
    {
        proof {
            assert forall|j: int| 0 <= j < 32 implies !bit_is_set(0u32, j) by {
                lemma_constant_words(j as u32);
            }
        }
        Bits32 { word: 0 }
    }

    /// A register with every flag raised.
    pub fn ones() -> (r: Self)
        ensures
            r@ == uniform(32, true),
    {
        proof {
            assert forall|j: int| 0 <= j < 32 implies bit_is_set(!0u32, j) by {
                lemma_constant_words(j as u32);
            }
        }
        Bits32 { word: !0 }
    }

    /// Reads the flag at position `i`.
    pub fn get(&self, i: u8) -> (r: bool)
        requires
            i < 32,
        ensures
            r == self@[i as int],
    {
        proof {
            lemma_mask_reads_bit(self.word, i as u32);
        }
        (self.word & (1u32 << i)) != 0
    }

    /// Flips the flag at position `i`; every other flag stays as it was.
    pub fn not(&mut self, i: u8)
        requires
            i < 32,
        ensures
            final(self)@ == toggled(old(self)@, i as int),
            final(self)@[i as int] != old(self)@[i as int],
    {
        self.word ^= 1u32 << i;
        proof {
            let flipped = toggled(old(self)@, i as int);
            assert forall|j: int| 0 <= j < 32 implies #[trigger] self@[j] == flipped[j] by {
                lemma_xor_mask(old(self).word, i as u32, j as u32);
            }
        }
    }

    /// Raises the flag at position `i`; every other flag stays as it was.
    pub fn set_on(&mut self, i: u8)
        requires
            i < 32,
        ensures
            final(self)@ == old(self)@.update(i as int, true),
    {
        self.word |= 1u32 << i;
        proof {
            let raised = old(self)@.update(i as int, true);
            assert forall|j: int| 0 <= j < 32 implies #[trigger] self@[j] == raised[j] by {
                lemma_or_mask(old(self).word, i as u32, j as u32);
            }
        }
    }

    /// Clears the flag at position `i`; every other flag stays as it was.
    pub fn set_off(&mut self, i: u8)
        requires
            i < 32,
        ensures
            final(self)@ == old(self)@.update(i as int, false),
    {
        self.word &= !(1u32 << i);
        proof {
            let cleared = old(self)@.update(i as int, false);
            assert forall|j: int| 0 <= j < 32 implies #[trigger] self@[j] == cleared[j] by {
                lemma_and_not_mask(old(self).word, i as u32, j as u32);
            }
        }
    }

    /// Writes `val` to the flag at position `i`; every other flag stays as it
    /// was.
    pub fn set(&mut self, i: u8, val: bool)
        requires
            i < 32,
        ensures
            final(self)@ == old(self)@.update(i as int, val),
    {
        if val {
            self.set_on(i)
        } else {
            self.set_off(i)
        }
    }
}

} // verus!
