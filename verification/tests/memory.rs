use seekable_reader::access::AccessPattern;
use seekable_reader::cache::{State, MAX_BLOCK};
use seekable_reader::engine::{RangeProbe, ResponseCursor, SeekableHttpReaderEngine};
use seekable_reader::memory::ReadFailure;
use seekable_reader::position::{SeekFrom, SeekableHttpReader};

struct Session {
    engine: SeekableHttpReaderEngine,
    state: State,
    cursor: ResponseCursor,
    resource: Vec<u8>,
}

impl Session {
    fn new(resource: &[u8], readahead_limit: Option<usize>, access_pattern: AccessPattern) -> Self {
        let probe = Ok(RangeProbe { accepts_ranges: true, len: resource.len() as u64 });
        let (engine, state, cursor) =
            SeekableHttpReaderEngine::new(probe, readahead_limit, access_pattern).unwrap();
        Session { engine, state, cursor, resource: resource.to_vec() }
    }

    fn read(&mut self, reader: &mut SeekableHttpReader, buf: &mut [u8]) -> Result<usize, ReadFailure> {
        assert!(reader.stream_position() <= self.engine.len());
        match self.state.readahead_limit() {
            Some(limit) => assert!(limit.checked_add(MAX_BLOCK).is_some()),
            None => assert!(self.state.current_size().checked_add(self.resource.len()).is_some()),
        }
        self.engine.read_from_memory(
            &mut self.state,
            &mut self.cursor,
            reader,
            &self.resource,
            buf,
        )
    }

    fn read_exact(&mut self, reader: &mut SeekableHttpReader, buf: &mut [u8]) {
        let mut done = 0;
        while done < buf.len() {
            done += self.read(reader, &mut buf[done..]).unwrap();
        }
    }
}

fn patterned(len: usize) -> Vec<u8> {
    let mut bytes = Vec::new();
    for i in 0..len {
        bytes.push((i % 247) as u8);
    }
    bytes
}

#[test]
fn memory_sequential_prefix() {
    for pattern in [AccessPattern::RandomAccess, AccessPattern::SequentialIsh] {
        let mut session = Session::new(b"0123456789AB", None, pattern);
        let mut reader = session.engine.create_reader();
        let mut buf = [0u8; 4];
        assert_eq!(session.read(&mut reader, &mut buf), Ok(4));
        assert_eq!(&buf, b"0123");
        assert_eq!(session.read(&mut reader, &mut buf), Ok(4));
        assert_eq!(&buf, b"4567");
        assert_eq!(session.read(&mut reader, &mut buf), Ok(4));
        assert_eq!(&buf, b"89AB");
        assert_eq!(session.read(&mut reader, &mut buf), Err(ReadFailure::EndOfStream));
        assert_eq!(&buf, b"89AB");
        assert_eq!(session.state.stats().num_http_streams, 1);
        assert_eq!(session.cursor.reader_pos(), Some(12));
    }
}

#[test]
fn memory_rewind_and_reread() {
    let mut sequential = Session::new(b"0123456789AB", None, AccessPattern::SequentialIsh);
    let mut random = Session::new(b"0123456789AB", None, AccessPattern::RandomAccess);
    for (session, streams) in [(&mut sequential, 2), (&mut random, 1)] {
        let mut reader = session.engine.create_reader();
        let mut buf = [0u8; 4];
        for _ in 0..3 {
            session.read_exact(&mut reader, &mut buf);
        }
        assert_eq!(reader.seek(SeekFrom::Start(0)), Ok(0));
        session.read_exact(&mut reader, &mut buf);
        assert_eq!(&buf, b"0123");
        session.read_exact(&mut reader, &mut buf);
        assert_eq!(&buf, b"4567");
        assert_eq!(session.state.stats().num_http_streams, streams);
    }
}

#[test]
fn memory_jump_forward() {
    let mut session = Session::new(b"0123456789AB", None, AccessPattern::RandomAccess);
    let mut reader = session.engine.create_reader();
    let mut buf = [0u8; 4];
    session.read_exact(&mut reader, &mut buf);
    assert_eq!(reader.seek(SeekFrom::Start(4)), Ok(4));
    assert_eq!(session.read(&mut reader, &mut buf), Ok(4));
    assert_eq!(&buf, b"4567");
    for pos in 0..4u64 {
        assert_eq!(reader.seek(SeekFrom::Start(pos)), Ok(pos));
        assert_eq!(session.read(&mut reader, &mut buf), Ok(4));
        assert_eq!(&buf[..], &b"0123456789AB"[pos as usize..pos as usize + 4]);
    }
    let stats = session.state.stats();
    assert_eq!(stats.num_http_streams, 1);
    assert_eq!(stats.cache_misses, 1);
    assert_eq!(stats.cache_hits, 6);
}

#[test]
fn memory_tiny_limit() {
    let resource = patterned(2 * MAX_BLOCK + 100);
    let mut session = Session::new(&resource, Some(4), AccessPattern::SequentialIsh);
    assert_eq!(session.state.readahead_limit(), Some(MAX_BLOCK));
    let mut reader = session.engine.create_reader();
    let mut all = vec![0u8; resource.len()];
    session.read_exact(&mut reader, &mut all);
    assert_eq!(all, resource);
    assert_eq!(session.state.block_count(), 0);
    assert_eq!(session.state.stats().num_http_streams, 1);
    assert_eq!(session.read(&mut reader, &mut all), Err(ReadFailure::EndOfStream));
}

#[test]
fn memory_read_waits_for_other_fetcher() {
    let mut session = Session::new(b"0123456789AB", None, AccessPattern::RandomAccess);
    let mut reader = session.engine.create_reader();
    let mut buf = [5u8; 4];
    session.state.claim_fetch();
    assert_eq!(session.read(&mut reader, &mut buf), Err(ReadFailure::FetchInProgress));
    assert_eq!(buf, [5u8; 4]);
    assert_eq!(reader.stream_position(), 0);
    session.state.release_fetch(false);
    assert_eq!(session.read(&mut reader, &mut buf), Ok(4));
    assert_eq!(&buf, b"0123");
}

#[test]
fn memory_fresh_block_can_be_evicted() {
    let resource = patterned(3 * MAX_BLOCK);
    let mut session = Session::new(&resource, Some(MAX_BLOCK), AccessPattern::RandomAccess);
    let mut reader = session.engine.create_reader();
    let mut buf = [0u8; 4];
    reader.seek(SeekFrom::Start(2 * MAX_BLOCK as u64)).unwrap();
    assert_eq!(session.read(&mut reader, &mut buf), Ok(4));
    reader.seek(SeekFrom::Start(0)).unwrap();
    assert_eq!(session.read(&mut reader, &mut buf), Err(ReadFailure::BlockEvicted));
    assert_eq!(reader.stream_position(), 0);
    assert!(!session.state.read_in_progress());
    assert_eq!(session.state.current_size(), MAX_BLOCK);
}

#[test]
fn memory_random_reads_match_the_resource() {
    let resource = patterned(2 * MAX_BLOCK + 12345);
    for limit in [None, Some(4), Some(3 * MAX_BLOCK)] {
        let mut session = Session::new(&resource, limit, AccessPattern::RandomAccess);
        let mut reader = session.engine.create_reader();
        let mut seed: u64 = 12345;
        let mut last = 0u64;
        for _ in 0..200 {
            seed = seed.wrapping_mul(6364136223846793005).wrapping_add(1442695040888963407);
            // Moving forward, so that the block fetched last is the highest.
            let pos = (last + (seed >> 33) % 50_000).min(resource.len() as u64 - 1);
            last = pos;
            let mut buf = vec![0u8; 1 + (seed % 5000) as usize];
            assert_eq!(reader.seek(SeekFrom::Start(pos)), Ok(pos));
            let count = session.read(&mut reader, &mut buf).unwrap();
            assert!(count > 0);
            assert_eq!(&buf[..count], &resource[pos as usize..pos as usize + count]);
            assert_eq!(reader.stream_position(), pos + count as u64);
            if let Some(bound) = session.state.readahead_limit() {
                assert!(session.state.current_size() <= bound);
            }
        }
    }
}

#[test]
fn memory_streams_are_rewinds_plus_first_plus_reopens() {
    let mut session = Session::new(b"0123456789AB", None, AccessPattern::RandomAccess);
    let mut reader = session.engine.create_reader();
    let mut buf = [0u8; 2];
    let mut rewinds = 0;
    let mut reopens = 0;
    for pos in [8u64, 0, 4, 10, 2] {
        let live = session.cursor.reader_pos();
        let misses = session.state.stats().cache_misses;
        reader.seek(SeekFrom::Start(pos)).unwrap();
        assert_eq!(session.read(&mut reader, &mut buf), Ok(2));
        let fetched = session.state.stats().cache_misses > misses;
        if fetched && live.is_some() && pos < live.unwrap() {
            rewinds += 1;
        }
    }
    assert_eq!(rewinds, 1);
    if session.engine.set_expected_access_pattern(&mut session.state, AccessPattern::SequentialIsh) {
        session.engine.response_opened(&mut session.cursor, 0);
        reopens += 1;
    }
    assert_eq!(reopens, 1);
    reader.seek(SeekFrom::Start(0)).unwrap();
    assert_eq!(session.read(&mut reader, &mut buf), Ok(2));
    assert_eq!(session.state.stats().num_http_streams, rewinds + 1 + reopens);
    assert_eq!(session.state.stats().num_http_streams, 3);
}
