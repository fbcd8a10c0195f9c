//! What holds of the model's operations, whatever the bits.

use crate::error::Error;
use crate::model::{
    bits_in_use, blocks_for, cursor_fits, cursor_for, flat, full_width, in_range, lookup,
    pushed_all, pushed_blocks, pushed_cursor, store_outcome, stored, stored_blocks, toggled,
    uniform,
};
use vstd::prelude::*;

verus! {

/// A uniform sequence has the length asked for, and every index below that
/// length reads the chosen bit.
pub proof fn lemma_uniform_reads(len: nat, bit: bool)
    ensures
        uniform(len, bit).len() == len,
        forall|i: int| 0 <= i < len ==> lookup(uniform(len, bit), i) == Some(bit),
        lookup(uniform(len, bit), len as int) == None::<bool>,
{
}

/// Appending one bit makes the sequence one longer, puts the bit at the new
/// last index and keeps every earlier bit.
pub proof fn lemma_push_appends(bits: Seq<bool>, val: bool)
    ensures
        bits.push(val).len() == bits.len() + 1,
        lookup(bits.push(val), bits.len() as int) == Some(val),
        forall|i: int| 0 <= i < bits.len() ==> lookup(bits.push(val), i) == lookup(bits, i),
{
}

/// Appending `values` one by one to `bits` gives `bits` followed by `values`.
pub proof fn lemma_pushed_all_concat(bits: Seq<bool>, values: Seq<bool>)
    ensures
        pushed_all(bits, values) == bits + values,
    decreases values.len(),
{
    if values.len() == 0 {
        assert(bits + values =~= bits);
    } else {
        lemma_pushed_all_concat(bits, values.drop_last());
        assert((bits + values.drop_last()).push(values.last()) =~= bits + values);
    }
}

/// After `k` appends to the empty sequence the length is `k`, and the last
/// index reads the bit appended last.
pub proof fn lemma_pushes_from_empty(values: Seq<bool>)
    ensures
        pushed_all(Seq::empty(), values).len() == values.len(),
        values.len() > 0 ==> lookup(pushed_all(Seq::empty(), values), values.len() - 1) == Some(
            values.last(),
        ),
{
    lemma_pushed_all_concat(Seq::empty(), values);
    assert(Seq::<bool>::empty() + values =~= values);
}

/// A write in range succeeds; the index then reads the written bit, every
/// other index reads what it read before, and the length stays.
pub proof fn lemma_store_then_lookup(bits: Seq<bool>, i: int, val: bool)
    requires
        in_range(bits, i),
    ensures
        store_outcome(bits, i) is Ok,
        lookup(stored(bits, i, val), i) == Some(val),
        stored(bits, i, val).len() == bits.len(),
        forall|j: int| j != i ==> lookup(stored(bits, i, val), j) == lookup(bits, j),
{
}

/// Out of range a read gives nothing, and a write is refused with an index
/// error and leaves the length and every bit as they were.
pub proof fn lemma_out_of_range(bits: Seq<bool>, i: int, val: bool)
    requires
        i >= bits.len(),
    ensures
        lookup(bits, i) == None::<bool>,
        store_outcome(bits, i) == Err::<(), Error>(Error::IndexError),
        stored(bits, i, val) == bits,
{
}

/// Negating a flag of a block changes what its position reads and nothing
/// else; negating it again restores the block.
pub proof fn lemma_toggle_differs(flags: Seq<bool>, p: int)
    requires
        flags.len() == 32,
        0 <= p < 32,
    ensures
        toggled(flags, p)[p] != flags[p],
        forall|q: int| 0 <= q < 32 && q != p ==> toggled(flags, p)[q] == flags[q],
        toggled(toggled(flags, p), p) == flags,
{
    assert(toggled(toggled(flags, p), p) =~= flags);
}

/// The layout chosen for a length stores exactly that many bits, and its
/// cursor fits its block count.
pub proof fn lemma_layout_of_len(bits: nat)
    ensures
        cursor_fits(blocks_for(bits), cursor_for(bits)),
        bits_in_use(blocks_for(bits), cursor_for(bits)) == bits,
{
}

/// A block count and a fitting cursor are determined by the number of bits
/// they store: no two layouts store the same length.
pub proof fn lemma_layout_determined(blocks: nat, cursor: nat)
    requires
        cursor_fits(blocks, cursor),
    ensures
        blocks == blocks_for(bits_in_use(blocks, cursor)),
        cursor == cursor_for(bits_in_use(blocks, cursor)),
{
}

/// Writing flag `i % 32` of block `i / 32` is a write at index `i` of the
/// stored bits.
pub proof fn lemma_stored_blocks_flat(blocks: Seq<Seq<bool>>, cursor: nat, i: int, val: bool)
    requires
        cursor_fits(blocks.len(), cursor),
        full_width(blocks),
        in_range(flat(blocks, cursor), i),
    ensures
        full_width(stored_blocks(blocks, i, val)),
        flat(stored_blocks(blocks, i, val), cursor) == stored(flat(blocks, cursor), i, val),
{
    let after = stored_blocks(blocks, i, val);
    assert(blocks[i / 32].len() == 32);
    assert(full_width(after)) by {
        assert forall|k: int| 0 <= k < after.len() implies (#[trigger] after[k]).len() == 32 by {
            assert(blocks[k].len() == 32);
        }
    }
    assert forall|j: int| 0 <= j < flat(blocks, cursor).len() implies #[trigger] flat(
        after,
        cursor,
    )[j] == stored(flat(blocks, cursor), i, val)[j] by {
        assert(blocks[j / 32].len() == 32);
    }
    assert(flat(after, cursor) =~= stored(flat(blocks, cursor), i, val));
}

/// Appending at the layout level, with a fresh block when the cursor stands
/// at 32, appends one bit to the stored bits.
pub proof fn lemma_pushed_blocks_flat(blocks: Seq<Seq<bool>>, cursor: nat, val: bool)
    requires
        cursor_fits(blocks.len(), cursor),
        full_width(blocks),
    ensures
        cursor_fits(pushed_blocks(blocks, cursor, val).len(), pushed_cursor(cursor)),
        full_width(pushed_blocks(blocks, cursor, val)),
        flat(pushed_blocks(blocks, cursor, val), pushed_cursor(cursor)) == flat(
            blocks,
            cursor,
        ).push(val),
{
    let after = pushed_blocks(blocks, cursor, val);
    let grown = flat(blocks, cursor).push(val);
    assert(full_width(after)) by {
        assert forall|k: int| 0 <= k < after.len() implies (#[trigger] after[k]).len() == 32 by {
            if k < blocks.len() {
                assert(blocks[k].len() == 32);
            }
        }
    }
    assert forall|j: int| 0 <= j < grown.len() implies #[trigger] flat(
        after,
        pushed_cursor(cursor),
    )[j] == grown[j] by {
        if j / 32 < blocks.len() {
            assert(blocks[j / 32].len() == 32);
        }
    }
    assert(flat(after, pushed_cursor(cursor)) =~= grown);
}

} // verus!
