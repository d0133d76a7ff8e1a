//! The decisions of the engine that serves many workers from one remote
//! resource. The engine itself moves no bytes over the network: it says
//! what is to be done next, and is told what came of it.
//!
//! A read is answered from the cache where a block covers the position.
//! Otherwise one worker at a time fetches: it opens a response where none
//! is live or the live one is already past the position, reads block after
//! block into the cache until the response has passed the position, and
//! then answers the read from the cache.

use crate::access::AccessPattern;
use crate::cache::{State, StateView, MAX_BLOCK};
use crate::model::lemma_lookup_index;
use crate::position::{position_after_read, SeekableHttpReader};
use crate::stats::SeekableHttpReaderStatistics;
use vstd::prelude::*;

verus! {

/// Why no engine could be made for a resource.
#[derive(Debug)]
pub enum Error {
    /// The server did not say that it accepts requests for byte ranges.
    AcceptRangesNotSupported,
    /// The resource could not be asked about; the text says why.
    RangeFetcherError(String),
}

impl Error {
    /// A description of the failure.
    pub fn message(&self) -> (text: String)
        ensures
            text@ == match *self {
                Error::AcceptRangesNotSupported =>
                    "This HTTP resource did not advertise that it accepts ranges via the Accept-Ranges header"@,
                Error::RangeFetcherError(reason) => reason@,
            },
    {
        match self {
            Error::AcceptRangesNotSupported =>
                "This HTTP resource did not advertise that it accepts ranges via the Accept-Ranges header".to_owned(),
            Error::RangeFetcherError(reason) => reason.clone(),
        }
    }
}

/// What asking the server about a resource brought back.
#[derive(Debug, Clone, Copy, PartialEq, Eq, Structural)]
pub struct RangeProbe {
    /// Whether the server accepts requests for byte ranges.
    pub accepts_ranges: bool,
    /// The total length of the resource.
    pub len: u64,
}

/// Whether a response is live, and if so the offset of the next byte that
/// it yields. A response only moves forward.
#[derive(Debug, Clone, Copy)]
pub struct ResponseCursor {
    reader_pos: Option<u64>,
}

/// Whether a read at `pos` is a rewind: a response is live, and it is
/// already past `pos`.
pub open spec fn rewinds(cursor: Option<u64>, pos: u64) -> bool {
    cursor matches Some(at) && pos < at
}

/// Whether a fetch for a read at `pos` has to open a response: none is
/// live, or the read is a rewind.
pub open spec fn opens(cursor: Option<u64>, pos: u64) -> bool {
    cursor is None || rewinds(cursor, pos)
}

/// The length of the block read next from a response at `at`, of a
/// resource of `len` bytes: a full block, or what is left of the resource.
pub open spec fn block_len(len: u64, at: u64) -> nat {
    if len - at >= MAX_BLOCK {
        MAX_BLOCK as nat
    } else if len >= at {
        (len - at) as nat
    } else {
        0
    }
}

/// Where a response at `at` stands after block upon block was read from it
/// until it had passed `pos`.
pub open spec fn fast_forward(at: u64, pos: u64, len: u64) -> u64
    decreases len - at,
{
    if at <= pos && at < len {
        fast_forward((at + block_len(len, at)) as u64, pos, len)
    } else {
        at
    }
}

impl ResponseCursor {
    /// The offset of the next byte of the live response, if one is live.
    pub closed spec fn position(&self) -> Option<u64> {
        self.reader_pos
    }

    /// A live response has not run past the end of a resource of `len`
    /// bytes.
    pub open spec fn within(&self, len: u64) -> bool {
        self.position() matches Some(at) ==> at <= len
    }

    /// No response is live.
    pub fn new() -> (cursor: Self)
        ensures
            cursor.position() is None,
    {
        Self { reader_pos: None }
    }

    /// The offset of the next byte of the live response, if one is live.
    pub fn reader_pos(&self) -> (at: Option<u64>)
        ensures
            at == self.position(),
    {
        self.reader_pos
    }

    /// The live response, if any, was torn down.
    pub fn discard(&mut self)
        ensures
            final(self).position() is None,
    {
        self.reader_pos = None;
    }
}

/// What the worker that reads is to do next.
#[derive(Debug, Clone, Copy, PartialEq, Eq, Structural)]
pub enum ReadStep {
    /// The position is the end of the resource: there is nothing to read.
    EndOfStream,
    /// The read was answered from the cache with so many bytes.
    Hit(usize),
    /// Another worker is fetching: wait until it has put a block into the
    /// cache, then try again.
    Wait,
    /// The calling worker is now the one that fetches.
    Fetch,
}

/// What the worker that fetches is to do next.
#[derive(Debug, Clone, Copy, PartialEq, Eq, Structural)]
pub enum FetchStep {
    /// Open a response that starts at `at`.
    Open { at: u64 },
    /// Read exactly `len` bytes from the live response, which start at `at`
    /// in the resource, and deposit them.
    ReadBlock { at: u64, len: usize },
    /// The response has passed the position: answer the read from the
    /// cache.
    Serve,
}

/// The step of a fetch for a read at `pos`, by where the response is.
pub open spec fn fetch_step(cursor: Option<u64>, pos: u64, len: u64) -> FetchStep {
    match cursor {
        None => FetchStep::Open { at: pos },
        Some(at) => if pos >= at {
            FetchStep::ReadBlock { at, len: block_len(len, at) as usize }
        } else {
            FetchStep::Serve
        },
    }
}

/// The fixed part of an engine: the length of its resource. The shared
/// [`State`] and the [`ResponseCursor`] are kept beside it, each under a
/// lock of its own.
#[derive(Debug, Clone, Copy)]
pub struct SeekableHttpReaderEngine {
    len: u64,
}

impl SeekableHttpReaderEngine {
    /// The total length of the resource.
    pub closed spec fn total_len(&self) -> u64 {
        self.len
    }

    /// Makes an engine from what the server said about the resource. The
    /// engine starts with an empty cache and no live response.
    pub fn new(
        probe: Result<RangeProbe, String>,
        readahead_limit: Option<usize>,
        access_pattern: AccessPattern,
    ) -> (made: Result<(Self, State, ResponseCursor), Error>)
        ensures
            match made {
                Ok((engine, state, cursor)) => {
                    &&& probe matches Ok(answer)
                    &&& answer.accepts_ranges
                    &&& engine.total_len() == answer.len
                    &&& state.wf()
                    &&& state@ == StateView::empty(readahead_limit, access_pattern)
                    &&& cursor.position() is None
                },
                Err(Error::AcceptRangesNotSupported) => probe matches Ok(answer)
                    && !answer.accepts_ranges,
                Err(Error::RangeFetcherError(reason)) => probe matches Err(why) && reason@ == why@,
            },
    {
        match probe {
            Err(why) => Err(Error::RangeFetcherError(why)),
            Ok(answer) => {
                if !answer.accepts_ranges {
                    return Err(Error::AcceptRangesNotSupported);
                }
                Ok(
                    (
                        Self { len: answer.len },
                        State::new(readahead_limit, access_pattern),
                        ResponseCursor::new(),
                    ),
                )
            },
        }
    }

    /// A handle for one worker, at the start of the resource.
    pub fn create_reader(&self) -> (reader: SeekableHttpReader)
        ensures
            reader.position() == 0,
            reader.total_len() == self.total_len(),
    {
        SeekableHttpReader::new(self.len)
    }

    /// The total length of the resource.
    pub fn len(&self) -> (len: u64)
        ensures
            len == self.total_len(),
    {
        self.len
    }

    /// The counters as they stand.
    pub fn get_stats(&self, state: &State) -> (stats: SeekableHttpReaderStatistics)
        ensures
            stats == state@.stats,
    {
        state.stats()
    }

    /// Sets the hint. Returns whether a response is now to be opened at the
    /// start of the resource. No worker may be reading when this is called.
    pub fn set_expected_access_pattern(&self, state: &mut State, access_pattern: AccessPattern) -> (reopen: bool)
        requires
            old(state).wf(),
            old(state)@.reopens_for(access_pattern) ==> !old(state)@.read_in_progress,
        ensures
            final(state).wf(),
            final(state)@ == old(state)@.with_access_pattern(access_pattern),
            reopen == old(state)@.reopens_for(access_pattern),
    {
        state.set_expected_access_pattern(access_pattern)
    }

    /// Starts, or takes up again, a read of `reader` into `buf`, with the
    /// state locked. At the end of the resource there is nothing to read.
    /// Where a block covers the position the read is answered from it and
    /// the handle moves on by the bytes copied. Otherwise the worker waits
    /// if another is fetching, and else becomes the one that fetches.
    pub fn begin_read(&self, state: &mut State, reader: &mut SeekableHttpReader, buf: &mut [u8]) -> (step: ReadStep)
        requires
            old(state).wf(),
            old(reader).position() <= self.total_len(),
        ensures
            final(state).wf(),
            final(reader).total_len() == old(reader).total_len(),
            step == self.read_step(old(state)@, old(reader).position(), old(buf)@.len()),
            final(state)@ == match step {
                ReadStep::Hit(_) => old(state)@.read(old(reader).position(), old(buf)@.len()),
                ReadStep::Fetch => old(state)@.fetch_claimed(),
                _ => old(state)@,
            },
            final(buf)@ == match step {
                ReadStep::Hit(_) => old(state)@.filled(old(reader).position(), old(buf)@),
                _ => old(buf)@,
            },
            final(reader).position() == match step {
                ReadStep::Hit(count) => position_after_read(old(reader).position(), count as nat),
                _ => old(reader).position() as int,
            },
    {
        let pos = reader.stream_position();
        if pos == self.len {
            return ReadStep::EndOfStream;
        }
        proof {
            lemma_lookup_index(state@.blocks, pos as int);
        }
        match state.read_from_cache(pos, buf) {
            Some(count) => {
                reader.advance(count);
                ReadStep::Hit(count)
            },
            None => {
                if state.read_in_progress() {
                    ReadStep::Wait
                } else {
                    state.claim_fetch();
                    ReadStep::Fetch
                }
            },
        }
    }

    /// What [`Self::begin_read`] decides.
    pub open spec fn read_step(&self, state: StateView, pos: u64, want: nat) -> ReadStep {
        if pos == self.total_len() {
            ReadStep::EndOfStream
        } else {
            match state.copied(pos, want) {
                Some(count) => ReadStep::Hit(count),
                None => if state.read_in_progress {
                    ReadStep::Wait
                } else {
                    ReadStep::Fetch
                },
            }
        }
    }

    /// The first step of a fetch for a read at `pos`, with the response
    /// locked. A live response that is already past `pos` cannot go back:
    /// it is discarded, and a new one is to be opened at `pos`.
    pub fn start_fetch(&self, cursor: &mut ResponseCursor, pos: u64) -> (step: FetchStep)
        requires
            old(cursor).within(self.total_len()),
            pos < self.total_len(),
        ensures
            final(cursor).within(self.total_len()),
            final(cursor).position() == if rewinds(old(cursor).position(), pos) {
                None
            } else {
                old(cursor).position()
            },
            step == fetch_step(final(cursor).position(), pos, self.total_len()),
            step is Open <==> opens(old(cursor).position(), pos),
            !(step is Serve),
    {
        if let Some(at) = cursor.reader_pos() {
            if pos < at {
                cursor.discard();
            }
        }
        self.continue_fetch(cursor, pos)
    }

    /// The next step of a fetch for a read at `pos`: open a response where
    /// none is live; read the next block while the response has not passed
    /// `pos`; then serve.
    pub fn continue_fetch(&self, cursor: &ResponseCursor, pos: u64) -> (step: FetchStep)
        requires
            cursor.within(self.total_len()),
            pos < self.total_len(),
        ensures
            step == fetch_step(cursor.position(), pos, self.total_len()),
            step matches FetchStep::ReadBlock { at, len } ==> 0 < len <= MAX_BLOCK && at + len
                <= self.total_len(),
    {
        match cursor.reader_pos() {
            None => FetchStep::Open { at: pos },
            Some(at) => {
                if pos >= at {
                    let left = self.len - at;
                    let len = if left >= MAX_BLOCK as u64 {
                        MAX_BLOCK
                    } else {
                        left as usize
                    };
                    FetchStep::ReadBlock { at, len }
                } else {
                    FetchStep::Serve
                }
            },
        }
    }

    /// A response was opened that starts at `at`.
    pub fn response_opened(&self, cursor: &mut ResponseCursor, at: u64)
        requires
            at <= self.total_len(),
        ensures
            final(cursor).position() == Some(at),
            final(cursor).within(self.total_len()),
    {
        cursor.reader_pos = Some(at);
    }

    /// The next bytes of the live response were read. They go into the
    /// cache at the offset where the response stood, and the response
    /// stands past them. Waiting workers should now look at the cache again.
    pub fn deposit(&self, state: &mut State, cursor: &mut ResponseCursor, block: Vec<u8>)
        requires
            old(state).wf(),
            old(cursor).position() matches Some(at) && at + block@.len() <= self.total_len(),
            old(state)@.current_size + block@.len() <= usize::MAX,
        ensures
            final(state).wf(),
            final(state)@ == old(state)@.insert(old(cursor).position().unwrap(), block@),
            final(cursor).position() == Some(
                (old(cursor).position().unwrap() + block@.len()) as u64,
            ),
            final(cursor).within(self.total_len()),
    {
        let at = cursor.reader_pos.unwrap();
        let len = block.len();
        state.insert(at, block);
        cursor.reader_pos = Some(at + len as u64);
    }

    /// Ends a fetch, with the state locked: answers the read of `reader`
    /// from the cache, counts the response if one was opened, and clears
    /// the flag. Returns nothing if no block covers the position, which
    /// leaves the handle where it was.
    pub fn finish_read(
        &self,
        state: &mut State,
        reader: &mut SeekableHttpReader,
        buf: &mut [u8],
        response_opened: bool,
    ) -> (copied: Option<usize>)
        requires
            old(state).wf(),
        ensures
            final(state).wf(),
            final(reader).total_len() == old(reader).total_len(),
            copied == old(state)@.copied(old(reader).position(), old(buf)@.len()),
            final(buf)@ == old(state)@.filled(old(reader).position(), old(buf)@),
            final(state)@ == old(state)@.read(old(reader).position(), old(buf)@.len()).fetch_released(
                response_opened,
            ),
            final(reader).position() == match copied {
                Some(count) => position_after_read(old(reader).position(), count as nat),
                None => old(reader).position() as int,
            },
    {
        let pos = reader.stream_position();
        proof {
            lemma_lookup_index(state@.blocks, pos as int);
        }
        let copied = state.read_from_cache(pos, buf);
        if let Some(count) = copied {
            reader.advance(count);
        }
        state.release_fetch(response_opened);
        copied
    }

    /// Gives up a fetch that failed, with the state locked: clears the
    /// flag, so that another worker can fetch. Waiting workers should now
    /// look at the cache again.
    pub fn abandon_read(&self, state: &mut State)
        requires
            old(state).wf(),
        ensures
            final(state).wf(),
            final(state)@ == old(state)@.fetch_released(false),
    {
        state.release_fetch(false);
    }
}

} // verus!
