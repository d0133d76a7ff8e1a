//! The readahead cache: blocks fetched from the resource and not yet done
//! with, the bound on their total size, and the counters kept beside them.

use crate::access::AccessPattern;
use crate::model::{
    all_valid, ascending, count_below, evict, lemma_count_below_is_index, lemma_lookup_index,
    lemma_total_len_insert,
    lemma_total_len_remove, lemma_total_len_update, lookup_index, place, total_len, Block,
};
use crate::stats::{raise, raised, SeekableHttpReaderStatistics};
use vstd::prelude::*;

verus! {

/// How much is read from the underlying response in one piece before other
/// workers are told that new data has arrived. Larger blocks keep waiting
/// workers idle for longer; smaller blocks make the cache's bookkeeping
/// dominate.
pub const MAX_BLOCK: usize = 1024 * 1024;

/// The limit that is in force for a requested limit: a limit below one block
/// is raised to one block, so that the block fetched last can always be
/// kept.
pub open spec fn effective_limit(requested: Option<usize>) -> Option<usize> {
    match requested {
        Some(limit) => Some(if limit > MAX_BLOCK { limit } else { MAX_BLOCK }),
        None => None,
    }
}

/// Data read from the resource and not yet handed to every reader that
/// wants it.
#[derive(Debug)]
pub struct CacheCell {
    data: Vec<u8>,
    bytes_read: usize,
}

impl View for CacheCell {
    type V = Seq<u8>;

    /// The bytes the cell holds.
    closed spec fn view(&self) -> Seq<u8> {
        self.data@
    }
}

impl CacheCell {
    /// How many of the cell's bytes readers have taken.
    pub closed spec fn consumed(&self) -> nat {
        self.bytes_read as nat
    }

    /// The counter does not pass the length of the data.
    pub closed spec fn wf(&self) -> bool {
        self.bytes_read <= self.data@.len()
    }

    /// Wraps freshly fetched data; nothing of it is consumed yet.
    pub fn new(data: Vec<u8>) -> (cell: Self)
        ensures
            cell@ == data@,
            cell.consumed() == 0,
            cell.wf(),
    {
        Self { data, bytes_read: 0 }
    }

    /// The number of bytes held.
    pub fn len(&self) -> (n: usize)
        ensures
            n == self@.len(),
    {
        self.data.len()
    }

    /// Whether readers have taken every byte of the cell.
    pub fn entirely_consumed(&self) -> (done: bool)
        ensures
            done == (self.consumed() >= self@.len()),
    {
        self.bytes_read >= self.len()
    }

    /// Records that readers took `n` more bytes. The counter stops at the
    /// length of the data.
    fn consume(&mut self, n: usize)
        requires
            old(self).wf(),
        ensures
            final(self).wf(),
            final(self)@ == old(self)@,
            final(self).consumed() == if old(self).consumed() + n <= old(self)@.len() {
                (old(self).consumed() + n) as nat
            } else {
                old(self)@.len()
            },
    {
        let len = self.data.len();
        if n <= len - self.bytes_read {
            self.bytes_read = self.bytes_read + n;
        } else {
            self.bytes_read = len;
        }
    }
}

/// A cell together with the offset in the resource at which its data
/// starts.
#[derive(Debug)]
struct CacheEntry {
    offset: u64,
    cell: CacheCell,
}

impl CacheEntry {
    spec fn block(self) -> Block {
        Block { offset: self.offset, data: self.cell.data@, consumed: self.cell.bytes_read as nat }
    }
}

/// The blocks that a sequence of entries stands for.
spec fn blocks_of(entries: Seq<CacheEntry>) -> Seq<Block> {
    Seq::new(entries.len(), |i: int| entries[i].block())
}

/// What contracts say about a [`State`].
pub struct StateView {
    /// The hint given by the user.
    pub access_pattern: AccessPattern,
    /// The limit in force on the bytes held, if there is one.
    pub readahead_limit: Option<usize>,
    /// The number of bytes held.
    pub current_size: usize,
    /// The blocks held, in ascending order of their offsets.
    pub blocks: Seq<Block>,
    /// Whether some worker is reading from the underlying response.
    pub read_in_progress: bool,
    /// The counters.
    pub stats: SeekableHttpReaderStatistics,
}

impl StateView {
    /// The invariant of the cache: offsets ascend, every counter is within
    /// its block, the recorded size is the sum of the block lengths, and a
    /// limit, where set, is at least one block and is respected.
    pub open spec fn valid(self) -> bool {
        &&& ascending(self.blocks)
        &&& all_valid(self.blocks)
        &&& self.current_size == total_len(self.blocks)
        &&& match self.readahead_limit {
            Some(limit) => limit >= MAX_BLOCK && self.current_size <= limit,
            None => true,
        }
    }

    /// The cache of an engine that has fetched nothing yet.
    pub open spec fn empty(readahead_limit: Option<usize>, access_pattern: AccessPattern) -> Self {
        StateView {
            access_pattern,
            readahead_limit: effective_limit(readahead_limit),
            current_size: 0,
            blocks: Seq::empty(),
            read_in_progress: false,
            stats: SeekableHttpReaderStatistics::zero(),
        }
    }

    /// The blocks after `data` was put at `pos` and, where a limit is set,
    /// blocks were dropped from the lowest offset upwards until the limit
    /// was met.
    pub open spec fn blocks_after_insert(self, pos: u64, data: Seq<u8>) -> Seq<Block> {
        let placed = place(self.blocks, Block::fresh(pos, data));
        match self.readahead_limit {
            Some(limit) => evict(placed, limit as nat),
            None => placed,
        }
    }

    /// The cache after `data` was inserted at `pos`. Each block dropped
    /// counts as one shrink.
    pub open spec fn insert(self, pos: u64, data: Seq<u8>) -> Self {
        let placed = place(self.blocks, Block::fresh(pos, data));
        let kept = self.blocks_after_insert(pos, data);
        StateView {
            blocks: kept,
            current_size: total_len(kept) as usize,
            stats: SeekableHttpReaderStatistics {
                cache_shrinks: raised(self.stats.cache_shrinks, (placed.len() - kept.len()) as nat),
                ..self.stats
            },
            ..self
        }
    }

    /// The state after a worker has taken on the fetching: the flag is set
    /// and one more miss is counted.
    pub open spec fn fetch_claimed(self) -> Self {
        StateView {
            read_in_progress: true,
            stats: SeekableHttpReaderStatistics {
                cache_misses: raised(self.stats.cache_misses, 1),
                ..self.stats
            },
            ..self
        }
    }

    /// The state after the fetching worker has let go: the flag is clear,
    /// and a response that it opened is counted.
    pub open spec fn fetch_released(self, response_opened: bool) -> Self {
        StateView {
            read_in_progress: false,
            stats: SeekableHttpReaderStatistics {
                num_http_streams: raised(
                    self.stats.num_http_streams,
                    if response_opened {
                        1
                    } else {
                        0
                    },
                ),
                ..self.stats
            },
            ..self
        }
    }

    /// Whether a change of the hint to `access_pattern` has a response
    /// opened at the start of the resource: the hint changes, and changes to
    /// [`AccessPattern::SequentialIsh`].
    pub open spec fn reopens_for(self, access_pattern: AccessPattern) -> bool {
        self.access_pattern != access_pattern && access_pattern == AccessPattern::SequentialIsh
    }

    /// The state after the hint was set to `access_pattern`. A response
    /// opened on that account is counted.
    pub open spec fn with_access_pattern(self, access_pattern: AccessPattern) -> Self {
        StateView {
            access_pattern,
            stats: SeekableHttpReaderStatistics {
                num_http_streams: raised(
                    self.stats.num_http_streams,
                    if self.reopens_for(access_pattern) {
                        1
                    } else {
                        0
                    },
                ),
                ..self.stats
            },
            ..self
        }
    }

    /// Whether a read at `pos` can be answered from the cache.
    pub open spec fn hit(self, pos: u64) -> bool {
        lookup_index(self.blocks, pos as int) >= 0
    }

    /// The block that answers a read at `pos`.
    pub open spec fn found(self, pos: u64) -> Block {
        self.blocks[lookup_index(self.blocks, pos as int)]
    }

    /// What a read of at most `want` bytes at `pos` returns: the number of
    /// bytes copied, or nothing when no block covers `pos`.
    pub open spec fn copied(self, pos: u64, want: nat) -> Option<usize> {
        if self.hit(pos) {
            Some(self.found(pos).served(pos as int, want) as usize)
        } else {
            None
        }
    }

    /// The caller's buffer after such a read: the bytes of the block from
    /// `pos` on at its start, the rest untouched.
    pub open spec fn filled(self, pos: u64, buf: Seq<u8>) -> Seq<u8> {
        if self.hit(pos) {
            let block = self.found(pos);
            block.slice(pos as int, buf.len()) + buf.skip(block.served(pos as int, buf.len()) as int)
        } else {
            buf
        }
    }

    /// The cache after a read of at most `want` bytes at `pos`. A miss
    /// changes nothing. A hit counts, and raises the block's counter by the
    /// bytes copied; under [`AccessPattern::SequentialIsh`] a block whose
    /// bytes have all been taken is dropped.
    pub open spec fn read(self, pos: u64, want: nat) -> Self {
        if self.hit(pos) {
            let i = lookup_index(self.blocks, pos as int);
            let block = self.blocks[i].consume(self.blocks[i].served(pos as int, want));
            let blocks = if self.access_pattern == AccessPattern::SequentialIsh
                && block.entirely_consumed() {
                self.blocks.remove(i)
            } else {
                self.blocks.update(i, block)
            };
            StateView {
                blocks,
                current_size: total_len(blocks) as usize,
                stats: SeekableHttpReaderStatistics {
                    cache_hits: raised(self.stats.cache_hits, 1),
                    ..self.stats
                },
                ..self
            }
        } else {
            self
        }
    }
}

/// The state of an engine that all workers share: the readahead cache and
/// the flag that says whether a worker is fetching.
#[derive(Debug)]
pub struct State {
    access_pattern: AccessPattern,
    readahead_limit: Option<usize>,
    current_size: usize,
    cache: Vec<CacheEntry>,
    read_in_progress: bool,
    stats: SeekableHttpReaderStatistics,
}

impl View for State {
    type V = StateView;

    closed spec fn view(&self) -> StateView {
        StateView {
            access_pattern: self.access_pattern,
            readahead_limit: self.readahead_limit,
            current_size: self.current_size,
            blocks: blocks_of(self.cache@),
            read_in_progress: self.read_in_progress,
            stats: self.stats,
        }
    }
}

/// Copies `count` bytes of `src`, from `start` on, to the start of `buf`.
fn copy_out(buf: &mut [u8], src: &Vec<u8>, start: usize, count: usize)
    requires
        count <= old(buf)@.len(),
        start + count <= src@.len(),
    ensures
        final(buf)@ == src@.subrange(start as int, start + count) + old(buf)@.skip(count as int),
{
    let mut i: usize = 0;
    while i < count
        invariant
            i <= count,
            count <= buf@.len(),
            buf@.len() == old(buf)@.len(),
            start + count <= src@.len(),
            src@.len() == src.len(),
            forall|j: int| 0 <= j < i ==> buf@[j] == src@[start + j],
            forall|j: int| i <= j < buf@.len() ==> buf@[j] == old(buf)@[j],
        decreases count - i,
    {
        buf[i] = src[start + i];
        i += 1;
    }
}

impl State {
    /// Whether the state satisfies the invariant of the cache.
    pub open spec fn wf(&self) -> bool {
        self@.valid()
    }

    /// An empty cache with the given hint. A limit below one block is
    /// raised to one block.
    pub fn new(readahead_limit: Option<usize>, access_pattern: AccessPattern) -> (state: Self)
        ensures
            state.wf(),
            state@ == StateView::empty(readahead_limit, access_pattern),
    {
        let readahead_limit = match readahead_limit {
            Some(limit) => if limit > MAX_BLOCK {
                Some(limit)
            } else {
                Some(MAX_BLOCK)
            },
            None => None,
        };
        let state = Self {
            access_pattern,
            readahead_limit,
            current_size: 0,
            cache: Vec::new(),
            read_in_progress: false,
            stats: SeekableHttpReaderStatistics::default(),
        };
        assert(state@.blocks =~= Seq::<Block>::empty());
        state
    }

    /// The hint in force.
    pub fn access_pattern(&self) -> (access_pattern: AccessPattern)
        ensures
            access_pattern == self@.access_pattern,
    {
        self.access_pattern
    }

    /// The limit in force on the bytes held, if there is one.
    pub fn readahead_limit(&self) -> (limit: Option<usize>)
        ensures
            limit == self@.readahead_limit,
    {
        self.readahead_limit
    }

    /// The number of bytes held.
    pub fn current_size(&self) -> (size: usize)
        ensures
            size == self@.current_size,
    {
        self.current_size
    }

    /// The number of blocks held.
    pub fn block_count(&self) -> (count: usize)
        ensures
            count == self@.blocks.len(),
    {
        self.cache.len()
    }

    /// Whether some worker is reading from the underlying response.
    pub fn read_in_progress(&self) -> (busy: bool)
        ensures
            busy == self@.read_in_progress,
    {
        self.read_in_progress
    }

    /// The counters as they stand.
    pub fn stats(&self) -> (stats: SeekableHttpReaderStatistics)
        ensures
            stats == self@.stats,
    {
        self.stats
    }

    /// Makes the calling worker the one that fetches: sets the flag and
    /// counts a miss.
    pub fn claim_fetch(&mut self)
        requires
            old(self).wf(),
        ensures
            final(self).wf(),
            final(self)@ == old(self)@.fetch_claimed(),
    {
        self.stats.cache_misses = raise(self.stats.cache_misses);
        self.read_in_progress = true;
    }

    /// Ends the fetching of the calling worker: clears the flag, and
    /// counts the response if the worker had to open one.
    pub fn release_fetch(&mut self, response_opened: bool)
        requires
            old(self).wf(),
        ensures
            final(self).wf(),
            final(self)@ == old(self)@.fetch_released(response_opened),
    {
        if response_opened {
            self.stats.num_http_streams = raise(self.stats.num_http_streams);
        }
        self.read_in_progress = false;
    }

    /// Whether setting the hint to `access_pattern` would have a response
    /// opened at the start of the resource.
    pub fn would_reopen(&self, access_pattern: AccessPattern) -> (reopen: bool)
        ensures
            reopen == self@.reopens_for(access_pattern),
    {
        self.access_pattern != access_pattern && access_pattern == AccessPattern::SequentialIsh
    }

    /// Sets the hint. Returns whether a response is to be opened at the
    /// start of the resource, which is so when the hint changes to
    /// [`AccessPattern::SequentialIsh`]; that response is counted here.
    /// No worker may be fetching when the hint changes in that way.
    pub fn set_expected_access_pattern(&mut self, access_pattern: AccessPattern) -> (reopen: bool)
        requires
            old(self).wf(),
            old(self)@.reopens_for(access_pattern) ==> !old(self)@.read_in_progress,
        ensures
            final(self).wf(),
            final(self)@ == old(self)@.with_access_pattern(access_pattern),
            reopen == old(self)@.reopens_for(access_pattern),
    {
        if self.access_pattern == access_pattern {
            return false;
        }
        let reopen = match access_pattern {
            AccessPattern::SequentialIsh => true,
            AccessPattern::RandomAccess => false,
        };
        if reopen {
            self.stats.num_http_streams = raise(self.stats.num_http_streams);
        }
        self.access_pattern = access_pattern;
        reopen
    }

    /// The index at which a block starting at `pos` belongs: every entry
    /// before it starts below `pos`, every entry from it on starts at `pos`
    /// or above.
    fn slot(&self, pos: u64) -> (k: usize)
        requires
            self.wf(),
        ensures
            k <= self.cache@.len(),
            k == count_below(self@.blocks, pos as int),
            forall|i: int| 0 <= i < k ==> self@.blocks[i].offset < pos,
            forall|i: int| k <= i < self.cache@.len() ==> self@.blocks[i].offset >= pos,
    {
        let mut k: usize = self.cache.len();
        while k > 0 && self.cache[k - 1].offset >= pos
            invariant
                k <= self.cache@.len(),
                forall|i: int| k <= i < self.cache@.len() ==> self@.blocks[i].offset >= pos,
            decreases k,
        {
            k -= 1;
        }
        proof {
            let blocks = self@.blocks;
            assert forall|i: int| 0 <= i < k implies blocks[i].offset < pos by {
                assert(blocks[k - 1].offset < pos);
            }
            lemma_count_below_is_index(blocks, pos as int, k as int);
        }
        k
    }

    /// Inserts a block into the cache at `pos`, in place of a block that
    /// was at that offset. Where a limit is set, blocks are then dropped
    /// from the lowest offset upwards until the cache is within the limit,
    /// each counting as one shrink.
    pub fn insert(&mut self, pos: u64, block: Vec<u8>)
        requires
            old(self).wf(),
            pos + block@.len() <= u64::MAX,
            old(self)@.current_size + block@.len() <= usize::MAX,
        ensures
            final(self).wf(),
            final(self)@ == old(self)@.insert(pos, block@),
    {
        let ghost before = self@;
        let ghost fresh = Block::fresh(pos, block@);
        let ghost placed = place(before.blocks, fresh);
        let extra = block.len();
        let k = self.slot(pos);
        let entry = CacheEntry { offset: pos, cell: CacheCell::new(block) };
        if k < self.cache.len() && self.cache[k].offset == pos {
            let replaced = self.cache[k].cell.len();
            proof {
                lemma_total_len_remove(before.blocks, k as int);
                lemma_total_len_update(before.blocks, k as int, fresh);
                lemma_count_below_is_index(before.blocks, pos + 1, k + 1);
                assert(placed =~= before.blocks.update(k as int, fresh));
            }
            self.cache[k] = entry;
            self.current_size = self.current_size - replaced + extra;
        } else {
            proof {
                lemma_total_len_insert(before.blocks, k as int, fresh);
                lemma_count_below_is_index(before.blocks, pos + 1, k as int);
            }
            self.cache.insert(k, entry);
            self.current_size += extra;
        }
        assert(self@.blocks =~= placed);
        if let Some(limit) = self.readahead_limit {
            while self.current_size > limit
                invariant
                    self.readahead_limit == Some(limit),
                    limit >= MAX_BLOCK,
                    ascending(self@.blocks),
                    all_valid(self@.blocks),
                    self.current_size == total_len(self@.blocks),
                    self@.blocks.len() <= placed.len(),
                    evict(self@.blocks, limit as nat) == evict(placed, limit as nat),
                    self@.stats == (SeekableHttpReaderStatistics {
                        cache_shrinks: raised(
                            before.stats.cache_shrinks,
                            (placed.len() - self@.blocks.len()) as nat,
                        ),
                        ..before.stats
                    }),
                    self@.access_pattern == before.access_pattern,
                    self@.read_in_progress == before.read_in_progress,
                decreases self.cache@.len(),
            {
                let ghost current = self@.blocks;
                proof {
                    // More than nothing is held, so there is a first block.
                    assert(current.len() > 0) by {
                        if current.len() == 0 {
                            assert(total_len(current) == 0);
                        }
                    }
                    lemma_total_len_remove(current, 0);
                }
                self.stats.cache_shrinks = raise(self.stats.cache_shrinks);
                let dropped = self.cache.remove(0);
                self.current_size -= dropped.cell.len();
                assert(self@.blocks =~= current.skip(1));
            }
        }
    }

    /// Finds the block that answers a read at `pos`: of the blocks that
    /// cover `pos`, the one that starts last.
    fn find(&self, pos: u64) -> (found: Option<usize>)
        requires
            self.wf(),
        ensures
            match found {
                Some(i) => i == lookup_index(self@.blocks, pos as int) && i < self.cache@.len(),
                None => lookup_index(self@.blocks, pos as int) == -1,
            },
    {
        let ghost blocks = self@.blocks;
        let mut i: usize = self.cache.len();
        assert(blocks.take(i as int) =~= blocks);
        while i > 0
            invariant
                i <= self.cache@.len(),
                blocks == self@.blocks,
                lookup_index(blocks, pos as int) == lookup_index(blocks.take(i as int), pos as int),
            decreases i,
        {
            let ghost upto = blocks.take(i as int);
            i -= 1;
            let start = self.cache[i].offset;
            assert(upto.drop_last() =~= blocks.take(i as int));
            if start <= pos && pos - start < self.cache[i].cell.len() as u64 {
                return Some(i);
            }
        }
        None
    }

    /// Reads from the readahead cache, if it can: copies to the start of
    /// `buf` what the block covering `pos` holds from `pos` on, as far as
    /// `buf` has room, and returns the number of bytes copied. Returns
    /// nothing, and changes nothing, when no block covers `pos`.
    pub fn read_from_cache(&mut self, pos: u64, buf: &mut [u8]) -> (copied: Option<usize>)
        requires
            old(self).wf(),
        ensures
            final(self).wf(),
            copied == old(self)@.copied(pos, old(buf)@.len()),
            final(buf)@ == old(self)@.filled(pos, old(buf)@),
            final(self)@ == old(self)@.read(pos, old(buf)@.len()),
    {
        let ghost before = self@;
        let discard_read_data = match self.access_pattern {
            AccessPattern::SequentialIsh => true,
            AccessPattern::RandomAccess => false,
        };
        match self.find(pos) {
            None => None,
            Some(i) => {
                let ghost block = before.blocks[i as int];
                proof {
                    lemma_lookup_index(before.blocks, pos as int);
                }
                let block_len = self.cache[i].cell.len();
                let block_offset = (pos - self.cache[i].offset) as usize;
                let room = buf.len();
                let to_read = if room <= block_len - block_offset {
                    room
                } else {
                    block_len - block_offset
                };
                copy_out(buf, &self.cache[i].cell.data, block_offset, to_read);
                self.cache[i].cell.consume(to_read);
                self.stats.cache_hits = raise(self.stats.cache_hits);
                let ghost taken = block.consume(to_read as nat);
                let ghost updated = before.blocks.update(i as int, taken);
                assert(self@.blocks =~= updated);
                proof {
                    lemma_total_len_update(before.blocks, i as int, taken);
                }
                if discard_read_data && self.cache[i].cell.entirely_consumed() {
                    proof {
                        lemma_total_len_remove(updated, i as int);
                    }
                    let dropped = self.cache.remove(i);
                    self.current_size -= dropped.cell.len();
                    assert(self@.blocks =~= before.blocks.remove(i as int));
                    assert(updated.remove(i as int) =~= before.blocks.remove(i as int));
                }
                Some(to_read)
            },
        }
    }
}

} // verus!
