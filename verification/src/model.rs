//! The readahead cache as contracts see it: a sequence of blocks in
//! ascending order of their offsets.

use vstd::prelude::*;

verus! {

/// One cached block: where it starts in the resource, the bytes it holds,
/// and how many of them readers have taken so far.
pub struct Block {
    pub offset: u64,
    pub data: Seq<u8>,
    pub consumed: nat,
}

impl Block {
    /// A block that nobody has read from yet.
    pub open spec fn fresh(offset: u64, data: Seq<u8>) -> Block {
        Block { offset, data, consumed: 0 }
    }

    /// The offset just past the block's last byte.
    pub open spec fn end(self) -> int {
        self.offset + self.data.len()
    }

    /// Whether the byte at `pos` lies inside the block.
    pub open spec fn covers(self, pos: int) -> bool {
        self.offset <= pos < self.end()
    }

    /// Whether readers have taken as many bytes as the block holds.
    pub open spec fn entirely_consumed(self) -> bool {
        self.consumed >= self.data.len()
    }

    /// The block after readers took `n` more bytes. The counter never
    /// passes the block's length.
    pub open spec fn consume(self, n: nat) -> Block {
        Block {
            consumed: if self.consumed + n <= self.data.len() {
                self.consumed + n
            } else {
                self.data.len()
            },
            ..self
        }
    }

    /// The counter is within the block, and the block ends within the range
    /// of offsets.
    pub open spec fn valid(self) -> bool {
        &&& self.consumed <= self.data.len()
        &&& self.end() <= u64::MAX
    }

    /// How many bytes a read of at most `want` bytes at `pos` takes from
    /// this block: what is left of it from `pos` on, or `want` if that is
    /// less.
    pub open spec fn served(self, pos: int, want: nat) -> nat {
        let left = self.end() - pos;
        if want <= left {
            want
        } else if left >= 0 {
            left as nat
        } else {
            0
        }
    }

    /// The bytes that such a read copies out.
    pub open spec fn slice(self, pos: int, want: nat) -> Seq<u8> {
        self.data.subrange(pos - self.offset, pos - self.offset + self.served(pos, want))
    }
}

/// Offsets strictly increase along the sequence, so no offset occurs twice.
pub open spec fn ascending(blocks: Seq<Block>) -> bool {
    forall|i: int, j: int| 0 <= i < j < blocks.len() ==> blocks[i].offset < blocks[j].offset
}

/// Every block of the sequence is valid.
pub open spec fn all_valid(blocks: Seq<Block>) -> bool {
    forall|i: int| 0 <= i < blocks.len() ==> (#[trigger] blocks[i]).valid()
}

/// No two blocks share a byte of the resource.
pub open spec fn non_overlapping(blocks: Seq<Block>) -> bool {
    forall|i: int, j: int|
        0 <= i < j < blocks.len() ==> (#[trigger] blocks[i]).end() <= (#[trigger] blocks[j]).offset
}

/// The number of bytes held by all blocks together.
pub open spec fn total_len(blocks: Seq<Block>) -> nat
    decreases blocks.len(),
{
    if blocks.len() == 0 {
        0
    } else {
        total_len(blocks.drop_last()) + blocks.last().data.len()
    }
}

/// How many blocks start below `bound`.
pub open spec fn count_below(blocks: Seq<Block>, bound: int) -> nat
    decreases blocks.len(),
{
    if blocks.len() == 0 {
        0
    } else {
        count_below(blocks.drop_last(), bound) + if blocks.last().offset < bound {
            1nat
        } else {
            0nat
        }
    }
}

/// The cache with `block` put at its offset: the blocks that start below it,
/// then `block`, then the blocks that start above it. A block that was at
/// the same offset is replaced.
pub open spec fn place(blocks: Seq<Block>, block: Block) -> Seq<Block> {
    blocks.take(count_below(blocks, block.offset as int) as int).push(block) + blocks.skip(
        count_below(blocks, block.offset + 1) as int,
    )
}

/// The cache after blocks were dropped from the lowest offset upwards until
/// what is left holds at most `limit` bytes.
pub open spec fn evict(blocks: Seq<Block>, limit: nat) -> Seq<Block>
    decreases blocks.len(),
{
    if blocks.len() == 0 || total_len(blocks) <= limit {
        blocks
    } else {
        evict(blocks.skip(1), limit)
    }
}

/// The index of the block that answers a read at `pos`: of the blocks that
/// cover `pos`, the one with the greatest offset. It is -1 when no block
/// covers `pos`.
pub open spec fn lookup_index(blocks: Seq<Block>, pos: int) -> int
    decreases blocks.len(),
{
    if blocks.len() == 0 {
        -1
    } else if blocks.last().covers(pos) {
        blocks.len() - 1
    } else {
        lookup_index(blocks.drop_last(), pos)
    }
}

/// Whether every block holds the bytes that `resource` has at the block's
/// place.
pub open spec fn faithful(blocks: Seq<Block>, resource: Seq<u8>) -> bool {
    forall|i: int|
        0 <= i < blocks.len() ==> {
            &&& (#[trigger] blocks[i]).end() <= resource.len()
            &&& blocks[i].data == resource.subrange(blocks[i].offset as int, blocks[i].end())
        }
}

/// The bytes of a sequence of blocks add up part by part.
pub proof fn lemma_total_len_concat(a: Seq<Block>, b: Seq<Block>)
    ensures
        total_len(a + b) == total_len(a) + total_len(b),
    decreases b.len(),
{
    if b.len() > 0 {
        assert((a + b).drop_last() =~= a + b.drop_last());
        lemma_total_len_concat(a, b.drop_last());
    }
}

/// A single block holds as many bytes as its data.
pub proof fn lemma_total_len_single(block: Block)
    ensures
        total_len(seq![block]) == block.data.len(),
{
    assert(seq![block].drop_last() =~= Seq::<Block>::empty());
    assert(total_len(Seq::<Block>::empty()) == 0);
}

/// Splitting a sequence of blocks at `k` splits its bytes.
pub proof fn lemma_total_len_split(blocks: Seq<Block>, k: int)
    requires
        0 <= k <= blocks.len(),
    ensures
        total_len(blocks) == total_len(blocks.take(k)) + total_len(blocks.skip(k)),
{
    assert(blocks =~= blocks.take(k) + blocks.skip(k));
    lemma_total_len_concat(blocks.take(k), blocks.skip(k));
}

/// Taking one block out of a sequence takes its bytes out of the total.
pub proof fn lemma_total_len_remove(blocks: Seq<Block>, k: int)
    requires
        0 <= k < blocks.len(),
    ensures
        total_len(blocks.remove(k)) + blocks[k].data.len() == total_len(blocks),
{
    lemma_total_len_split(blocks, k);
    lemma_total_len_split(blocks.skip(k), 1);
    assert(blocks.skip(k).take(1) =~= seq![blocks[k]]);
    lemma_total_len_single(blocks[k]);
    assert(blocks.skip(k).skip(1) =~= blocks.skip(k + 1));
    lemma_total_len_concat(blocks.take(k), blocks.skip(k + 1));
}

/// Putting one block into a sequence adds its bytes to the total.
pub proof fn lemma_total_len_insert(blocks: Seq<Block>, k: int, block: Block)
    requires
        0 <= k <= blocks.len(),
    ensures
        total_len(blocks.insert(k, block)) == total_len(blocks) + block.data.len(),
{
    let grown = blocks.insert(k, block);
    lemma_total_len_remove(grown, k);
    assert(grown.remove(k) =~= blocks);
}

/// Changing one block changes the total by the difference of the lengths.
pub proof fn lemma_total_len_update(blocks: Seq<Block>, k: int, block: Block)
    requires
        0 <= k < blocks.len(),
    ensures
        total_len(blocks.update(k, block)) + blocks[k].data.len() == total_len(blocks)
            + block.data.len(),
{
    lemma_total_len_remove(blocks, k);
    lemma_total_len_remove(blocks.update(k, block), k);
    assert(blocks.update(k, block).remove(k) =~= blocks.remove(k));
}

/// What the index that a lookup gives stands for: no block covers `pos` when
/// it is -1; otherwise it is the last index whose block covers `pos`.
pub proof fn lemma_lookup_index(blocks: Seq<Block>, pos: int)
    ensures
        -1 <= lookup_index(blocks, pos) < blocks.len(),
        lookup_index(blocks, pos) >= 0 ==> blocks[lookup_index(blocks, pos)].covers(pos),
        forall|j: int| lookup_index(blocks, pos) < j < blocks.len() ==> !blocks[j].covers(pos),
    decreases blocks.len(),
{
    if blocks.len() > 0 && !blocks.last().covers(pos) {
        let rest = blocks.drop_last();
        lemma_lookup_index(rest, pos);
        assert forall|j: int| lookup_index(blocks, pos) < j < blocks.len() implies !blocks[j].covers(
            pos,
        ) by {
            if j < rest.len() {
                assert(rest[j] == blocks[j]);
            }
        }
    }
}

/// In an ascending sequence the blocks below a bound are a prefix, and its
/// length is the count.
pub proof fn lemma_count_below_is_index(blocks: Seq<Block>, bound: int, k: int)
    requires
        0 <= k <= blocks.len(),
        forall|i: int| 0 <= i < k ==> blocks[i].offset < bound,
        forall|i: int| k <= i < blocks.len() ==> blocks[i].offset >= bound,
    ensures
        count_below(blocks, bound) == k,
    decreases blocks.len(),
{
    if blocks.len() > 0 {
        let rest = blocks.drop_last();
        if k == blocks.len() {
            lemma_count_below_is_index(rest, bound, k - 1);
        } else {
            lemma_count_below_is_index(rest, bound, k);
        }
    }
}

/// In an ascending sequence the count of blocks below a bound is the index
/// that parts those below the bound from the others.
pub proof fn lemma_count_below_splits(blocks: Seq<Block>, bound: int)
    requires
        ascending(blocks),
    ensures
        count_below(blocks, bound) <= blocks.len(),
        forall|i: int| 0 <= i < count_below(blocks, bound) ==> blocks[i].offset < bound,
        forall|i: int| count_below(blocks, bound) <= i < blocks.len() ==> blocks[i].offset >= bound,
    decreases blocks.len(),
{
    if blocks.len() > 0 {
        let rest = blocks.drop_last();
        lemma_count_below_splits(rest, bound);
        let k = count_below(rest, bound);
        if blocks.last().offset < bound && k < rest.len() {
            assert(rest[k as int].offset >= bound);
        }
        assert forall|i: int| 0 <= i < count_below(blocks, bound) implies blocks[i].offset
            < bound by {
            if i < rest.len() {
                assert(rest[i] == blocks[i]);
            }
        }
    }
}

/// Placing a block in an ascending sequence puts it where its offset
/// belongs: in place of the block at that offset if there is one, else
/// between its neighbours. The sequence stays ascending.
pub proof fn lemma_place_shape(blocks: Seq<Block>, block: Block)
    requires
        ascending(blocks),
    ensures
        ({
            let k = count_below(blocks, block.offset as int) as int;
            &&& k <= blocks.len()
            &&& place(blocks, block) == if k < blocks.len() && blocks[k].offset == block.offset {
                blocks.update(k, block)
            } else {
                blocks.insert(k, block)
            }
        }),
        ascending(place(blocks, block)),
        place(blocks, block)[count_below(blocks, block.offset as int) as int] == block,
{
    let k = count_below(blocks, block.offset as int) as int;
    lemma_count_below_splits(blocks, block.offset as int);
    if k < blocks.len() && blocks[k].offset == block.offset {
        lemma_count_below_is_index(blocks, block.offset + 1, k + 1);
    } else {
        lemma_count_below_is_index(blocks, block.offset + 1, k);
    }
}

/// Eviction drops blocks from the front only: what is left is the rest of
/// the sequence, and it is within the limit.
pub proof fn lemma_evict_suffix(blocks: Seq<Block>, limit: nat)
    ensures
        evict(blocks, limit).len() <= blocks.len(),
        evict(blocks, limit) == blocks.skip(blocks.len() - evict(blocks, limit).len()),
        total_len(evict(blocks, limit)) <= limit,
    decreases blocks.len(),
{
    if blocks.len() > 0 && total_len(blocks) > limit {
        lemma_evict_suffix(blocks.skip(1), limit);
    }
}

/// Eviction keeps the block with the greatest offset when that block alone
/// is within the limit.
pub proof fn lemma_evict_keeps_last(blocks: Seq<Block>, limit: nat)
    requires
        blocks.len() > 0,
        blocks.last().data.len() <= limit,
    ensures
        evict(blocks, limit).len() > 0,
        evict(blocks, limit).last() == blocks.last(),
    decreases blocks.len(),
{
    if total_len(blocks) > limit {
        if blocks.len() == 1 {
            assert(blocks =~= seq![blocks.last()]);
            lemma_total_len_single(blocks.last());
        } else {
            let rest = blocks.skip(1);
            lemma_evict_keeps_last(rest, limit);
        }
    }
}

/// A lookup hits exactly where some block covers the position.
pub proof fn lemma_lookup_hits_iff_covered(blocks: Seq<Block>, pos: int)
    ensures
        lookup_index(blocks, pos) >= 0 <==> exists|i: int|
            0 <= i < blocks.len() && (#[trigger] blocks[i]).covers(pos),
    decreases blocks.len(),
{
    lemma_lookup_index(blocks, pos);
    if blocks.len() > 0 && !blocks.last().covers(pos) {
        let rest = blocks.drop_last();
        lemma_lookup_hits_iff_covered(rest, pos);
        if lookup_index(rest, pos) >= 0 {
            let i = choose|i: int| 0 <= i < rest.len() && (#[trigger] rest[i]).covers(pos);
            assert(blocks[i].covers(pos));
        } else {
            assert forall|i: int| 0 <= i < blocks.len() implies !(#[trigger] blocks[i]).covers(
                pos,
            ) by {
                if i < rest.len() {
                    assert(rest[i] == blocks[i]);
                }
            }
        }
    }
}

/// Placing a block adds at most its bytes to the total, which then is at
/// least the length of the block.
pub proof fn lemma_place_total_len(blocks: Seq<Block>, block: Block)
    requires
        ascending(blocks),
    ensures
        total_len(place(blocks, block)) <= total_len(blocks) + block.data.len(),
        total_len(place(blocks, block)) >= block.data.len(),
{
    let k = count_below(blocks, block.offset as int) as int;
    lemma_place_shape(blocks, block);
    if k < blocks.len() && blocks[k].offset == block.offset {
        lemma_total_len_update(blocks, k, block);
        lemma_total_len_remove(blocks, k);
    } else {
        lemma_total_len_insert(blocks, k, block);
    }
}

/// Eviction does not add bytes.
pub proof fn lemma_evict_total_len(blocks: Seq<Block>, limit: nat)
    ensures
        total_len(evict(blocks, limit)) <= total_len(blocks),
{
    lemma_evict_suffix(blocks, limit);
    lemma_total_len_split(blocks, blocks.len() - evict(blocks, limit).len());
}

} // verus!
