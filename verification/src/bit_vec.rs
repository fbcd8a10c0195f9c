//! A growable sequence of bits stored in 32-bit blocks.

use crate::block::Bits32;
use crate::error::Error;
use crate::laws::{lemma_pushed_blocks_flat, lemma_stored_blocks_flat};
use crate::model::{
    bits_in_use, blocks_for, cursor_fits, cursor_for, flat, full_width, lookup, pushed_blocks,
    pushed_cursor, store_outcome, stored, stored_blocks, uniform,
};
use vstd::prelude::*;

verus! {

/// An appendable, indexable sequence of bits.
///
/// The bits live in `storage`, 32 to a block. `next_bit` is the cursor: the
/// number of bits in use in the last block, from 1 to 32, and 32 when there
/// is no block, so that the length is always `32 * blocks + cursor - 32`.
/// Indices and lengths are `usize`; the longest vector holds `usize::MAX`
/// bits.
#[derive(Debug)]
pub struct BitVec {
    storage: Vec<Bits32>,
    next_bit: u8,
}

impl View for BitVec {
    type V = Seq<bool>;

    /// The bits in index order: bit `i` is flag `i % 32` of block `i / 32`.
    open spec fn view(&self) -> Seq<bool> {
        flat(self.blocks(), self.cursor())
    }
}

impl BitVec {
    /// The flags of each block, in storage order.
    pub closed spec fn blocks(&self) -> Seq<Seq<bool>> {
        Seq::new(self.storage@.len(), |k: int| self.storage@[k]@)
    }

    /// The number of bits in use in the last block; 32 when there is none.
    pub closed spec fn cursor(&self) -> nat {
        self.next_bit as nat
    }

    /// What holds of every vector: the cursor fits the block count, every
    /// block has 32 flags, and the length fits in `usize`.
    #[verifier::type_invariant]
    pub open spec fn laid_out(&self) -> bool {
        &&& cursor_fits(self.blocks().len(), self.cursor())
        &&& full_width(self.blocks())
        &&& bits_in_use(self.blocks().len(), self.cursor()) <= usize::MAX
    }

    /// An empty vector that owns no block.
    pub fn new() -> (v: Self)
        ensures
            v@ == Seq::<bool>::empty(),
            v.blocks().len() == 0,
            v.cursor() == 32,
    {
        BitVec { storage: Vec::new(), next_bit: 32 }
    }

    /// An empty vector with room reserved for `capacity` bits, that is for
    /// `capacity / 32` blocks, rounded up. The reservation only saves later
    /// allocations: length, blocks and cursor are those of [`BitVec::new`].
    pub fn with_capacity(capacity: usize) -> (v: Self)
        ensures
            v@ == Seq::<bool>::empty(),
            v.blocks().len() == 0,
            v.cursor() == 32,
    {
        BitVec { storage: Vec::with_capacity(Self::block_count(capacity)), next_bit: 32 }
    }

    /// A vector of `amount` bits, all of them false, in blocks that are
    /// cleared throughout.
    pub fn zeroes(amount: usize) -> (v: Self)
        ensures
            v@ == uniform(amount as nat, false),
            v@.len() == amount,
            forall|i: int| 0 <= i < amount ==> v@[i] == false,
            v.blocks() == Seq::new(blocks_for(amount as nat), |k: int| uniform(32, false)),
            v.cursor() == cursor_for(amount as nat),
    {
        Self::filled(amount, false)
    }

    /// A vector of `amount` bits, all of them true, in blocks that are
    /// raised throughout.
    pub fn ones(amount: usize) -> (v: Self)
        ensures
            v@ == uniform(amount as nat, true),
            v@.len() == amount,
            forall|i: int| 0 <= i < amount ==> v@[i] == true,
            v.blocks() == Seq::new(blocks_for(amount as nat), |k: int| uniform(32, true)),
            v.cursor() == cursor_for(amount as nat),
    {
        Self::filled(amount, true)
    }

    /// The number of blocks that hold `bits` bits.
    fn block_count(bits: usize) -> (blocks: usize)
        ensures
            blocks == blocks_for(bits as nat),
    {
        if bits % 32 == 0 {
            bits / 32
        } else {
            bits / 32 + 1
        }
    }

    /// A vector of `amount` bits that all equal `bit`, in blocks whose flags
    /// all equal `bit`.
    fn filled(amount: usize, bit: bool) -> (v: Self)
        ensures
            v@ == uniform(amount as nat, bit),
            v.blocks() == Seq::new(blocks_for(amount as nat), |k: int| uniform(32, bit)),
            v.cursor() == cursor_for(amount as nat),
    {
        let block = if bit {
            Bits32::ones()
        } else {
            Bits32::zeroes()
        };
        let storage = vec![block; Self::block_count(amount)];
        let rest = amount % 32;
        let next_bit: u8 = if rest == 0 {
            32
        } else {
            rest as u8
        };
        let v = BitVec { storage, next_bit };
        proof {
            assert(v.blocks() =~= Seq::new(
                blocks_for(amount as nat),
                |k: int| uniform(32, bit),
            ));
            assert(v@ =~= uniform(amount as nat, bit));
        }
        v
    }

    /// The number of bits in the vector: `32 * blocks + cursor - 32`.
    pub fn len(&self) -> (n: usize)
        ensures
            n == self@.len(),
            n == bits_in_use(self.blocks().len(), self.cursor()),
    {
        proof {
            use_type_invariant(self);
        }
        let blocks = self.storage.len();
        if blocks == 0 {
            0
        } else {
            (blocks - 1) * 32 + self.next_bit as usize
        }
    }

    /// The bit at index `i`, or `None` when `i` is not below the length.
    pub fn get(&self, i: usize) -> (r: Option<bool>)
        ensures
            r == lookup(self@, i as int),
            i < self@.len() ==> r == Some(self@[i as int]),
            i >= self@.len() ==> r.is_none(),
    {
        if i >= self.len() {
            return None;
        }
        proof {
            use_type_invariant(self);
        }
        Some(self.storage[i / 32].get((i % 32) as u8))
    }

    /// Writes `val` at index `i` and leaves every other bit as it was. An
    /// index that is not below the length is refused with
    /// [`Error::IndexError`], and the vector stays as it was.
    pub fn set(&mut self, i: usize, val: bool) -> (r: Result<(), Error>)
        ensures
            r == store_outcome(old(self)@, i as int),
            final(self)@ == stored(old(self)@, i as int, val),
            final(self)@.len() == old(self)@.len(),
            r is Ok ==> final(self)@[i as int] == val,
            r is Ok ==> final(self).blocks() == stored_blocks(old(self).blocks(), i as int, val),
            r is Err ==> *final(self) == *old(self),
            final(self).cursor() == old(self).cursor(),
    {
        if i >= self.len() {
            return Err(Error::IndexError);
        }
        proof {
            use_type_invariant(&*self);
            assert forall|block: Bits32| (#[trigger] block@).len() == 32 by {
                block.lemma_view_len();
            }
        }
        self.storage[i / 32].set((i % 32) as u8, val);
        proof {
            assert(self.blocks() =~= stored_blocks(old(self).blocks(), i as int, val));
            lemma_stored_blocks_flat(old(self).blocks(), old(self).cursor(), i as int, val);
        }
        Ok(())
    }

    /// Appends `val` as the new last bit.
    ///
    /// A cursor of 32 (a full last block, or none) calls for a fresh block,
    /// whose first flag takes the bit; otherwise the bit goes to the next
    /// free flag of the last block. The length must stay within `usize`.
    pub fn push(&mut self, val: bool)
        requires
            old(self)@.len() < usize::MAX,
        ensures
            final(self)@ == old(self)@.push(val),
            final(self)@.len() == old(self)@.len() + 1,
            final(self)@.last() == val,
            final(self).blocks() == pushed_blocks(old(self).blocks(), old(self).cursor(), val),
            final(self).cursor() == pushed_cursor(old(self).cursor()),
    {
        proof {
            use_type_invariant(&*self);
        }
        // The two fields change one after the other, so the vector is taken
        // apart here and put together again once both are settled.
        let mut taken = BitVec::new();
        core::mem::swap(self, &mut taken);
        let BitVec { mut storage, mut next_bit } = taken;
        if next_bit >= 32 {
            storage.push(Bits32::new());
            next_bit = 0;
        }
        let last = storage.len() - 1;
        storage[last].set(next_bit, val);
        next_bit += 1;
        proof {
            let grown = BitVec { storage, next_bit };
            assert(grown.blocks() =~= pushed_blocks(
                old(self).blocks(),
                old(self).cursor(),
                val,
            ));
            lemma_pushed_blocks_flat(old(self).blocks(), old(self).cursor(), val);
        }
        *self = BitVec { storage, next_bit };
    }
}

} // verus!
