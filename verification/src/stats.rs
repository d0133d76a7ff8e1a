//! Counters that describe how well the readahead cache is doing.

use vstd::prelude::*;

verus! {

/// Cumulative counters of an engine. Each counter stops at `usize::MAX`
/// rather than wrapping around.
#[derive(Debug, Clone, Copy, PartialEq, Eq, Structural)]
pub struct SeekableHttpReaderStatistics {
    /// How often a response had to be opened.
    pub num_http_streams: usize,
    /// How often a read was answered from a block already in the cache.
    pub cache_hits: usize,
    /// How often a read had to go to the underlying response.
    pub cache_misses: usize,
    /// How many blocks were dropped because the cache had grown too large.
    pub cache_shrinks: usize,
}

/// `count` raised by `by`, stopping at `usize::MAX`.
pub open spec fn raised(count: usize, by: nat) -> usize {
    if count + by <= usize::MAX {
        (count + by) as usize
    } else {
        usize::MAX
    }
}

/// Raises a counter by one, stopping at `usize::MAX`.
pub fn raise(count: usize) -> (next: usize)
    ensures
        next == raised(count, 1),
{
    if count < usize::MAX {
        count + 1
    } else {
        count
    }
}

impl SeekableHttpReaderStatistics {
    /// The counters of an engine that has done nothing yet.
    pub open spec fn zero() -> Self {
        SeekableHttpReaderStatistics {
            num_http_streams: 0,
            cache_hits: 0,
            cache_misses: 0,
            cache_shrinks: 0,
        }
    }
}

impl Default for SeekableHttpReaderStatistics {
    fn default() -> (stats: Self)
        ensures
            stats == SeekableHttpReaderStatistics::zero(),
    {
        SeekableHttpReaderStatistics {
            num_http_streams: 0,
            cache_hits: 0,
            cache_misses: 0,
            cache_shrinks: 0,
        }
    }
}

} // verus!
