//! What holds of the cache, of the engine and of the handles whatever they
//! are asked to do. Each statement is proved from the contracts and the
//! model that the other modules state.

use crate::access::AccessPattern;
use crate::cache::{effective_limit, StateView, MAX_BLOCK};
use crate::engine::{block_len, fast_forward, opens, rewinds};
use crate::model::{
    count_below, faithful, lemma_count_below_splits, lemma_evict_keeps_last, lemma_evict_suffix,
    lemma_lookup_hits_iff_covered, lemma_lookup_index, lemma_place_shape, lemma_total_len_remove,
    lookup_index, non_overlapping, place, total_len, Block,
};
use crate::position::{
    position_after_read, seek_result, SeekError, SeekFrom, SeekableHttpReader,
};
use vstd::prelude::*;

verus! {

/// A read that the cache answers returns the bytes of the resource: where
/// every block holds what the resource has at the block's place, the bytes
/// copied are those that the resource has from the position on. The rest of
/// the buffer is left as it was, and a buffer with room gets at least one
/// byte, so that a caller who asks again and again comes to an end.
pub proof fn law_read_returns_resource_bytes(
    state: StateView,
    resource: Seq<u8>,
    pos: u64,
    buf: Seq<u8>,
)
    requires
        state.valid(),
        faithful(state.blocks, resource),
        state.hit(pos),
    ensures
        state.copied(pos, buf.len()) is Some,
        ({
            let count = state.copied(pos, buf.len()).unwrap() as int;
            let filled = state.filled(pos, buf);
            &&& count <= buf.len()
            &&& buf.len() > 0 ==> count > 0
            &&& pos + count <= resource.len()
            &&& filled.len() == buf.len()
            &&& filled.take(count) == resource.subrange(pos as int, pos + count)
            &&& filled.skip(count) == buf.skip(count)
        }),
{
    lemma_lookup_index(state.blocks, pos as int);
    // The block found is no longer than all blocks together.
    lemma_total_len_remove(state.blocks, lookup_index(state.blocks, pos as int));
}

/// Two reads, the second taken up where the first ended, give together what
/// one read of both lengths gives.
pub proof fn law_partial_reads_join(resource: Seq<u8>, pos: int, first: int, second: int)
    requires
        0 <= pos,
        0 <= first,
        0 <= second,
        pos + first + second <= resource.len(),
    ensures
        resource.subrange(pos, pos + first) + resource.subrange(pos + first, pos + first + second)
            == resource.subrange(pos, pos + first + second),
{
    assert(resource.subrange(pos, pos + first) + resource.subrange(
        pos + first,
        pos + first + second,
    ) =~= resource.subrange(pos, pos + first + second));
}

/// A cache whose blocks hold the bytes of the resource still does so when a
/// block of the resource's bytes is inserted.
pub proof fn law_insert_keeps_faithful(state: StateView, resource: Seq<u8>, pos: u64, data: Seq<u8>)
    requires
        state.valid(),
        faithful(state.blocks, resource),
        pos + data.len() <= resource.len(),
        data == resource.subrange(pos as int, pos + data.len()),
    ensures
        faithful(state.insert(pos, data).blocks, resource),
{
    let fresh = Block::fresh(pos, data);
    let placed = place(state.blocks, fresh);
    lemma_place_shape(state.blocks, fresh);
    if let Some(limit) = state.readahead_limit {
        lemma_evict_suffix(placed, limit as nat);
    }
}

/// Nor does a read change that.
pub proof fn law_read_keeps_faithful(state: StateView, resource: Seq<u8>, pos: u64, want: nat)
    requires
        state.valid(),
        faithful(state.blocks, resource),
    ensures
        faithful(state.read(pos, want).blocks, resource),
{
    lemma_lookup_index(state.blocks, pos as int);
}

/// Blocks that share no byte still share none after a block is inserted
/// that shares no byte with any of them.
pub proof fn law_insert_keeps_blocks_apart(state: StateView, pos: u64, data: Seq<u8>)
    requires
        state.valid(),
        non_overlapping(state.blocks),
        forall|i: int|
            0 <= i < state.blocks.len() ==> (#[trigger] state.blocks[i]).end() <= pos || pos
                + data.len() <= state.blocks[i].offset,
    ensures
        non_overlapping(state.insert(pos, data).blocks),
{
    let fresh = Block::fresh(pos, data);
    let placed = place(state.blocks, fresh);
    lemma_place_shape(state.blocks, fresh);
    lemma_count_below_splits(state.blocks, pos as int);
    let k = count_below(state.blocks, pos as int) as int;
    assert forall|i: int, j: int| 0 <= i < j < placed.len() implies (#[trigger] placed[i]).end()
        <= (#[trigger] placed[j]).offset by {
        if i == k && !(k < state.blocks.len() && state.blocks[k].offset == pos) {
            // The new block at `k` is followed by what was at `j - 1`.
            assert(state.blocks[j - 1].end() <= pos || pos + data.len() <= state.blocks[j
                - 1].offset);
        }
    }
    if let Some(limit) = state.readahead_limit {
        lemma_evict_suffix(placed, limit as nat);
    }
}

/// After a seek to `target` from the start and a read that returned `count`
/// bytes, the handle stands at `target + count`.
pub proof fn law_position_accounting(pos: u64, len: u64, target: u64, count: nat)
    ensures
        seek_result(pos, len, SeekFrom::Start(target)) == Ok::<u64, SeekError>(target),
        position_after_read(target, count) == target + count,
{
}

/// A clone starts where the handle stands, and knows the same length. A
/// handle is a plain value: a seek or a read is given one handle and changes
/// that one alone, so wherever `moved` has got to, the clone stands where
/// the handle stood when it was cloned.
pub proof fn law_clone_independence(
    handle: SeekableHttpReader,
    clone: SeekableHttpReader,
    moved: SeekableHttpReader,
    from: SeekFrom,
    count: nat,
)
    requires
        clone == handle,
        moved.position() == match seek_result(handle.position(), handle.total_len(), from) {
            Ok(landing) => position_after_read(landing, count),
            Err(_) => position_after_read(handle.position(), count),
        },
    ensures
        clone.position() == handle.position(),
        clone.total_len() == handle.total_len(),
{
}

/// The limit in force is the limit asked for, or one block if that is more.
pub proof fn law_limit_is_raised_to_one_block(requested: usize)
    ensures
        effective_limit(Some(requested)) == Some(
            if requested >= MAX_BLOCK {
                requested
            } else {
                MAX_BLOCK
            },
        ),
        effective_limit(None) == None::<usize>,
{
}

/// A valid cache made with a limit never holds more bytes than that limit,
/// or than one block if that is more.
pub proof fn law_bounded_cache(state: StateView, requested: usize)
    requires
        state.valid(),
        state.readahead_limit == effective_limit(Some(requested)),
    ensures
        state.current_size <= requested || state.current_size <= MAX_BLOCK,
        total_len(state.blocks) <= requested || total_len(state.blocks) <= MAX_BLOCK,
{
}

/// A read is answered from the cache exactly where some block covers the
/// position.
pub proof fn law_hit_means_covered(state: StateView, pos: u64)
    ensures
        state.hit(pos) <==> exists|i: int|
            0 <= i < state.blocks.len() && (#[trigger] state.blocks[i]).covers(pos as int),
        state.hit(pos) ==> state.found(pos).covers(pos as int),
{
    lemma_lookup_hits_iff_covered(state.blocks, pos as int);
    lemma_lookup_index(state.blocks, pos as int);
}

/// After a read that the cache answered, the cache still covers the
/// position, unless the hint is [`AccessPattern::SequentialIsh`] and the
/// read took the last bytes of the block that answered it.
pub proof fn law_block_outlives_read(state: StateView, pos: u64, want: nat)
    requires
        state.valid(),
        state.hit(pos),
    ensures
        state.read(pos, want).hit(pos) || (state.access_pattern == AccessPattern::SequentialIsh
            && state.found(pos).consume(
            state.found(pos).served(pos as int, want),
        ).entirely_consumed()),
{
    lemma_lookup_index(state.blocks, pos as int);
    let i = lookup_index(state.blocks, pos as int);
    let taken = state.blocks[i].consume(state.blocks[i].served(pos as int, want));
    if !(state.access_pattern == AccessPattern::SequentialIsh && taken.entirely_consumed()) {
        let after = state.read(pos, want).blocks;
        assert(after[i].covers(pos as int));
        lemma_lookup_hits_iff_covered(after, pos as int);
    }
}

/// A block of at most [`MAX_BLOCK`] bytes that is inserted above every
/// block of the cache is not dropped by its own insertion: right after it,
/// the cache answers every position that the block covers.
pub proof fn law_fresh_block_is_kept(state: StateView, at: u64, data: Seq<u8>, pos: u64)
    requires
        state.valid(),
        data.len() <= MAX_BLOCK,
        forall|i: int| 0 <= i < state.blocks.len() ==> state.blocks[i].offset <= at,
        at <= pos < at + data.len(),
    ensures
        state.insert(at, data).hit(pos),
        state.insert(at, data).found(pos) == Block::fresh(at, data),
{
    let fresh = Block::fresh(at, data);
    let placed = place(state.blocks, fresh);
    lemma_place_shape(state.blocks, fresh);
    lemma_count_below_splits(state.blocks, at as int);
    // No block starts above `at`, so the new block is the last one.
    assert(placed.last() == fresh);
    if let Some(limit) = state.readahead_limit {
        lemma_evict_keeps_last(placed, limit as nat);
    }
}

/// A cache without a limit keeps every block that is inserted: right after
/// the insertion it answers every position that the block covers.
pub proof fn law_unlimited_cache_keeps_block(state: StateView, at: u64, data: Seq<u8>, pos: u64)
    requires
        state.valid(),
        state.readahead_limit is None,
        at <= pos < at + data.len(),
    ensures
        state.insert(at, data).hit(pos),
{
    let fresh = Block::fresh(at, data);
    lemma_place_shape(state.blocks, fresh);
    let kept = state.insert(at, data).blocks;
    assert(kept[count_below(state.blocks, at as int) as int].covers(pos as int));
    lemma_lookup_hits_iff_covered(kept, pos as int);
}

/// While the response has not passed the position, the next block is not
/// empty and ends within the resource: every block read brings the response
/// nearer to the position, so a fetch comes to an end.
pub proof fn law_fast_forward_progress(len: u64, at: u64, pos: u64)
    requires
        at <= pos < len,
    ensures
        0 < block_len(len, at) <= MAX_BLOCK,
        at + block_len(len, at) <= len,
        pos - (at + block_len(len, at)) < pos - at,
{
}

/// Something that makes the engine open or move its response.
pub enum EngineEvent {
    /// A read at `pos` that the cache could not answer, and whose fetch
    /// succeeded.
    Fetch { pos: u64 },
    /// A change of the hint to [`AccessPattern::SequentialIsh`], for which a
    /// response was opened at the start of the resource.
    SwitchToSequential,
}

/// Where the response stands after a run of events, and what was counted.
pub struct Tally {
    /// The offset of the response's next byte, if a response is live.
    pub cursor: Option<u64>,
    /// The responses opened.
    pub streams: nat,
    /// The fetches that found the response past their position.
    pub rewinds: nat,
    /// The fetches that found no response live.
    pub first_opens: nat,
    /// The responses opened for a change of the hint.
    pub pattern_opens: nat,
}

/// The tally after one more event.
pub open spec fn step(tally: Tally, event: EngineEvent, len: u64) -> Tally {
    match event {
        EngineEvent::Fetch { pos } => {
            let start = if opens(tally.cursor, pos) {
                pos
            } else {
                tally.cursor.unwrap()
            };
            Tally {
                cursor: Some(fast_forward(start, pos, len)),
                streams: tally.streams + if opens(tally.cursor, pos) {
                    1nat
                } else {
                    0nat
                },
                rewinds: tally.rewinds + if rewinds(tally.cursor, pos) {
                    1nat
                } else {
                    0nat
                },
                first_opens: tally.first_opens + if tally.cursor is None {
                    1nat
                } else {
                    0nat
                },
                pattern_opens: tally.pattern_opens,
            }
        },
        EngineEvent::SwitchToSequential => Tally {
            cursor: Some(0),
            streams: tally.streams + 1,
            pattern_opens: tally.pattern_opens + 1,
            ..tally
        },
    }
}

/// The tally after a run of events on a new engine.
pub open spec fn run(events: Seq<EngineEvent>, len: u64) -> Tally
    decreases events.len(),
{
    if events.len() == 0 {
        Tally { cursor: None, streams: 0, rewinds: 0, first_opens: 0, pattern_opens: 0 }
    } else {
        step(run(events.drop_last(), len), events.last(), len)
    }
}

/// The responses opened are the rewinds, the responses opened for a change
/// of the hint, and the one response that the first fetch opens if nothing
/// opened one before it. After any event a response is live.
pub proof fn law_stream_accounting(events: Seq<EngineEvent>, len: u64)
    ensures
        run(events, len).streams == run(events, len).rewinds + run(events, len).first_opens + run(
            events,
            len,
        ).pattern_opens,
        run(events, len).first_opens == if events.len() > 0 && events[0] is Fetch {
            1nat
        } else {
            0nat
        },
        events.len() > 0 ==> run(events, len).cursor is Some,
    decreases events.len(),
{
    if events.len() > 0 {
        let earlier = events.drop_last();
        law_stream_accounting(earlier, len);
    }
}

} // verus!
