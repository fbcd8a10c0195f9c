//! The mathematical model of the library: bit sequences as `Seq<bool>`, the
//! operations on them, and the block layout that stores them.

use crate::error::Error;
use vstd::prelude::*;

verus! {

/// The sequence of `len` bits that all equal `bit`.
pub open spec fn uniform(len: nat, bit: bool) -> Seq<bool> {
    Seq::new(len, |i: int| bit)
}

/// Whether `i` names a bit of `bits`.
pub open spec fn in_range(bits: Seq<bool>, i: int) -> bool {
    0 <= i < bits.len()
}

/// What reading index `i` of `bits` gives: the bit there, or nothing when
/// `i` is out of range.
pub open spec fn lookup(bits: Seq<bool>, i: int) -> Option<bool> {
    if in_range(bits, i) {
        Some(bits[i])
    } else {
        None
    }
}

/// How a write at index `i` of `bits` ends: it succeeds in range and is
/// refused with [`Error::IndexError`] out of range.
pub open spec fn store_outcome(bits: Seq<bool>, i: int) -> Result<(), Error> {
    if in_range(bits, i) {
        Ok(())
    } else {
        Err(Error::IndexError)
    }
}

/// `bits` after a write of `val` at index `i`: only that bit changes, and a
/// write out of range changes nothing.
pub open spec fn stored(bits: Seq<bool>, i: int, val: bool) -> Seq<bool> {
    if in_range(bits, i) {
        bits.update(i, val)
    } else {
        bits
    }
}

/// `flags` with the flag at position `p` negated.
pub open spec fn toggled(flags: Seq<bool>, p: int) -> Seq<bool> {
    flags.update(p, !flags[p])
}

/// `bits` after appending each bit of `values`, first to last.
pub open spec fn pushed_all(bits: Seq<bool>, values: Seq<bool>) -> Seq<bool>
    decreases values.len(),
{
    if values.len() == 0 {
        bits
    } else {
        pushed_all(bits, values.drop_last()).push(values.last())
    }
}

/// The number of blocks that hold `bits` bits: `bits / 32`, rounded up.
pub open spec fn blocks_for(bits: nat) -> nat {
    (bits + 31) / 32
}

/// The cursor of a vector of `bits` bits: how many flags of its last block
/// are in use, and 32 when it has no block.
pub open spec fn cursor_for(bits: nat) -> nat {
    if bits % 32 == 0 {
        32
    } else {
        bits % 32
    }
}

/// Whether `cursor` may stand beside `blocks` blocks: it counts 1 to 32
/// flags of the last block, and is 32 when there is none.
pub open spec fn cursor_fits(blocks: nat, cursor: nat) -> bool {
    &&& 1 <= cursor <= 32
    &&& blocks == 0 ==> cursor == 32
}

/// The number of bits in use in `blocks` blocks whose last holds `cursor`
/// of them: `32 * blocks + cursor - 32`.
pub open spec fn bits_in_use(blocks: nat, cursor: nat) -> nat {
    if 32 * blocks + cursor >= 32 {
        (32 * blocks + cursor - 32) as nat
    } else {
        0
    }
}

/// The bit sequence that `blocks` store under `cursor`: bit `i` is flag
/// `i % 32` of block `i / 32`.
pub open spec fn flat(blocks: Seq<Seq<bool>>, cursor: nat) -> Seq<bool> {
    Seq::new(bits_in_use(blocks.len(), cursor), |i: int| blocks[i / 32][i % 32])
}

/// Whether every block of `blocks` has exactly 32 flags.
pub open spec fn full_width(blocks: Seq<Seq<bool>>) -> bool {
    forall|k: int| 0 <= k < blocks.len() ==> (#[trigger] blocks[k]).len() == 32
}

/// The blocks after a write of `val` at bit index `i`.
pub open spec fn stored_blocks(blocks: Seq<Seq<bool>>, i: int, val: bool) -> Seq<Seq<bool>> {
    blocks.update(i / 32, blocks[i / 32].update(i % 32, val))
}

/// The blocks after appending `val`: a cursor of 32 calls for a fresh,
/// cleared block whose first flag takes the bit; otherwise the bit goes to
/// position `cursor` of the last block.
pub open spec fn pushed_blocks(blocks: Seq<Seq<bool>>, cursor: nat, val: bool) -> Seq<Seq<bool>> {
    if cursor == 32 {
        blocks.push(uniform(32, false).update(0, val))
    } else {
        blocks.update(blocks.len() - 1, blocks.last().update(cursor as int, val))
    }
}

/// The cursor after appending one bit.
pub open spec fn pushed_cursor(cursor: nat) -> nat {
    if cursor == 32 {
        1
    } else {
        cursor + 1
    }
}

} // verus!
