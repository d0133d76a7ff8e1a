//! The whole course of a read, for one worker and a resource that is held
//! in memory: what the engine decides is carried out at once, with slices
//! of the resource standing for the blocks that a response would yield.

use crate::cache::{State, StateView, MAX_BLOCK};
use crate::engine::{
    block_len, fast_forward, fetch_step, opens, FetchStep, ReadStep, ResponseCursor,
    SeekableHttpReaderEngine,
};
use crate::laws::{
    law_insert_keeps_faithful, law_read_keeps_faithful, law_read_returns_resource_bytes,
    law_unlimited_cache_keeps_block,
};
use crate::model::{faithful, lemma_evict_total_len, lemma_place_total_len, place, Block};
use crate::position::{position_after_read, SeekableHttpReader};
use vstd::prelude::*;

verus! {

/// Why a read gave no bytes.
#[derive(Debug, Clone, Copy, PartialEq, Eq, Structural)]
pub enum ReadFailure {
    /// The handle stands at the end of the resource.
    EndOfStream,
    /// The cache does not cover the position, and another worker is the one
    /// that fetches.
    FetchInProgress,
    /// The block fetched for this read was dropped again to keep the cache
    /// within its limit, because blocks further on filled the cache.
    BlockEvicted,
}

/// The cache after block upon block of `resource` was deposited, from `at`
/// on, until the response had passed `pos`.
pub open spec fn fetched(state: StateView, at: u64, pos: u64, resource: Seq<u8>) -> StateView
    decreases resource.len() - at,
{
    if at <= pos && at < resource.len() && resource.len() <= u64::MAX {
        let len = block_len(resource.len() as u64, at);
        fetched(
            state.insert(at, resource.subrange(at as int, at + len)),
            (at + len) as u64,
            pos,
            resource,
        )
    } else {
        state
    }
}

/// Where the response of a fetch for a read at `pos` starts: at `pos` if it
/// has to be opened, else where the live response stands.
pub open spec fn fetch_start(cursor: Option<u64>, pos: u64) -> u64 {
    if opens(cursor, pos) {
        pos
    } else {
        cursor.unwrap()
    }
}

/// The cache as the fetching worker finds it when the response has passed
/// `pos`, before it answers its read.
pub open spec fn cache_after_fetch(
    state: StateView,
    cursor: Option<u64>,
    pos: u64,
    resource: Seq<u8>,
) -> StateView {
    fetched(state.fetch_claimed(), fetch_start(cursor, pos), pos, resource)
}

/// What a read at `pos` of at most `want` bytes gives.
pub open spec fn read_outcome(
    state: StateView,
    cursor: Option<u64>,
    pos: u64,
    want: nat,
    resource: Seq<u8>,
) -> Result<usize, ReadFailure> {
    if pos == resource.len() {
        Err(ReadFailure::EndOfStream)
    } else if state.hit(pos) {
        Ok(state.copied(pos, want).unwrap())
    } else if state.read_in_progress {
        Err(ReadFailure::FetchInProgress)
    } else {
        match cache_after_fetch(state, cursor, pos, resource).copied(pos, want) {
            Some(count) => Ok(count),
            None => Err(ReadFailure::BlockEvicted),
        }
    }
}

/// Whether such a read has to fetch.
pub open spec fn read_fetches(state: StateView, pos: u64, resource: Seq<u8>) -> bool {
    pos != resource.len() && !state.hit(pos) && !state.read_in_progress
}

/// Copies `len` bytes of `resource`, from `at` on, into a block.
fn copy_block(resource: &[u8], at: usize, len: usize) -> (block: Vec<u8>)
    requires
        at + len <= resource@.len(),
    ensures
        block@ == resource@.subrange(at as int, at + len),
{
    let total = resource.len();
    let mut block: Vec<u8> = Vec::with_capacity(len);
    let mut i: usize = 0;
    while i < len
        invariant
            i <= len,
            at + len <= total,
            total == resource@.len(),
            block@ == resource@.subrange(at as int, at + i),
        decreases len - i,
    {
        block.push(resource[at + i]);
        i += 1;
    }
    block
}

/// Unfolds one step of [`fetched`] and of [`fast_forward`].
proof fn lemma_fetch_one_block(state: StateView, at: u64, pos: u64, resource: Seq<u8>)
    requires
        at <= pos < resource.len() <= u64::MAX,
    ensures
        ({
            let len = block_len(resource.len() as u64, at);
            &&& fetched(state, at, pos, resource) == fetched(
                state.insert(at, resource.subrange(at as int, at + len)),
                (at + len) as u64,
                pos,
                resource,
            )
            &&& fast_forward(at, pos, resource.len() as u64) == fast_forward(
                (at + len) as u64,
                pos,
                resource.len() as u64,
            )
        }),
{
}

impl SeekableHttpReaderEngine {
    /// Reads for `reader` from a resource held in memory, as one worker
    /// does it from start to end. At the end of the resource there is
    /// nothing to read. A position that the cache covers is answered from
    /// the cache. Otherwise, unless another worker is fetching, a response
    /// is opened if need be, block upon block is deposited until the
    /// response has passed the position, and the read is answered from the
    /// cache.
    ///
    /// The bytes returned are those of the resource at the position, a
    /// buffer with room gets at least one, and the handle moves past them.
    /// A cache without a limit never fails the fetching worker.
    pub fn read_from_memory(
        &self,
        state: &mut State,
        cursor: &mut ResponseCursor,
        reader: &mut SeekableHttpReader,
        resource: &[u8],
        buf: &mut [u8],
    ) -> (outcome: Result<usize, ReadFailure>)
        requires
            old(state).wf(),
            old(cursor).within(self.total_len()),
            self.total_len() == resource@.len(),
            old(reader).position() <= self.total_len(),
            faithful(old(state)@.blocks, resource@),
            match old(state)@.readahead_limit {
                Some(limit) => limit + MAX_BLOCK <= usize::MAX,
                None => old(state)@.current_size + resource@.len() <= usize::MAX,
            },
        ensures
            final(state).wf(),
            final(cursor).within(self.total_len()),
            faithful(final(state)@.blocks, resource@),
            final(reader).total_len() == old(reader).total_len(),
            outcome == read_outcome(
                old(state)@,
                old(cursor).position(),
                old(reader).position(),
                old(buf)@.len(),
                resource@,
            ),
            final(state)@ == if read_fetches(old(state)@, old(reader).position(), resource@) {
                cache_after_fetch(
                    old(state)@,
                    old(cursor).position(),
                    old(reader).position(),
                    resource@,
                ).read(old(reader).position(), old(buf)@.len()).fetch_released(
                    opens(old(cursor).position(), old(reader).position()),
                )
            } else if outcome is Ok {
                old(state)@.read(old(reader).position(), old(buf)@.len())
            } else {
                old(state)@
            },
            final(cursor).position() == if read_fetches(
                old(state)@,
                old(reader).position(),
                resource@,
            ) {
                Some(
                    fast_forward(
                        fetch_start(old(cursor).position(), old(reader).position()),
                        old(reader).position(),
                        self.total_len(),
                    ),
                )
            } else {
                old(cursor).position()
            },
            match outcome {
                Ok(count) => {
                    &&& count <= old(buf)@.len()
                    &&& old(buf)@.len() > 0 ==> count > 0
                    &&& old(reader).position() + count <= resource@.len()
                    &&& final(buf)@.len() == old(buf)@.len()
                    &&& final(buf)@.take(count as int) == resource@.subrange(
                        old(reader).position() as int,
                        old(reader).position() + count,
                    )
                    &&& final(buf)@.skip(count as int) == old(buf)@.skip(count as int)
                    &&& final(reader).position() == position_after_read(
                        old(reader).position(),
                        count as nat,
                    )
                },
                Err(failure) => {
                    &&& final(buf)@ == old(buf)@
                    &&& final(reader).position() == old(reader).position()
                    &&& failure is BlockEvicted ==> old(state)@.readahead_limit is Some
                },
            },
    {
        let ghost before = state@;
        let ghost wanted = buf@;
        let pos = reader.stream_position();
        let total = resource.len();
        proof {
            law_read_keeps_faithful(before, resource@, pos, wanted.len());
            if before.hit(pos) {
                law_read_returns_resource_bytes(before, resource@, pos, wanted);
            }
        }
        match self.begin_read(state, reader, buf) {
            ReadStep::EndOfStream => {
                return Err(ReadFailure::EndOfStream);
            },
            ReadStep::Hit(count) => {
                return Ok(count);
            },
            ReadStep::Wait => {
                return Err(ReadFailure::FetchInProgress);
            },
            ReadStep::Fetch => {},
        }
        let ghost start = fetch_start(old(cursor).position(), pos);
        let ghost goal = cache_after_fetch(before, old(cursor).position(), pos, resource@);
        let mut response_opened = false;
        let mut step = self.start_fetch(cursor, pos);
        if let FetchStep::Open { at } = step {
            self.response_opened(cursor, at);
            response_opened = true;
            step = self.continue_fetch(cursor, pos);
        }
        loop
            invariant
                state.wf(),
                cursor.within(self.total_len()),
                self.total_len() == resource@.len(),
                total == resource@.len(),
                pos < self.total_len(),
                reader.position() == pos,
                reader.total_len() == old(reader).total_len(),
                buf@ == wanted,
                faithful(state@.blocks, resource@),
                cursor.position() is Some,
                step == fetch_step(cursor.position(), pos, self.total_len()),
                fetched(state@, cursor.position().unwrap(), pos, resource@) == goal,
                fast_forward(cursor.position().unwrap(), pos, self.total_len()) == fast_forward(
                    start,
                    pos,
                    self.total_len(),
                ),
                state@.readahead_limit == before.readahead_limit,
                match state@.readahead_limit {
                    Some(limit) => limit + MAX_BLOCK <= usize::MAX,
                    None => state@.current_size + (resource@.len() - cursor.position().unwrap())
                        <= usize::MAX,
                },
                state@.readahead_limit is None && cursor.position().unwrap() > pos ==> state@.hit(
                    pos,
                ),
            ensures
                cursor.position().unwrap() > pos,
            decreases self.total_len() - cursor.position().unwrap(),
        {
            match step {
                FetchStep::ReadBlock { at, len } => {
                    let block = copy_block(resource, at as usize, len);
                    proof {
                        let fresh = Block::fresh(at, block@);
                        lemma_fetch_one_block(state@, at, pos, resource@);
                        law_insert_keeps_faithful(state@, resource@, at, block@);
                        lemma_place_total_len(state@.blocks, fresh);
                        if let Some(limit) = state@.readahead_limit {
                            lemma_evict_total_len(place(state@.blocks, fresh), limit as nat);
                        } else if pos < at + len {
                            law_unlimited_cache_keeps_block(state@, at, block@, pos);
                        }
                    }
                    self.deposit(state, cursor, block);
                },
                _ => {
                    break;
                },
            }
            step = self.continue_fetch(cursor, pos);
        }
        proof {
            law_read_keeps_faithful(state@, resource@, pos, wanted.len());
            if state@.hit(pos) {
                law_read_returns_resource_bytes(state@, resource@, pos, wanted);
            }
        }
        match self.finish_read(state, reader, buf, response_opened) {
            Some(count) => Ok(count),
            None => Err(ReadFailure::BlockEvicted),
        }
    }
}

} // verus!
