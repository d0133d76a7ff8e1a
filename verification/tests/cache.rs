use seekable_reader::access::AccessPattern;
use seekable_reader::cache::{CacheCell, State, MAX_BLOCK};
use seekable_reader::entry::is_directory_name;
use seekable_reader::stats::{raise, SeekableHttpReaderStatistics};

#[test]
fn max_block_is_one_mebibyte() {
    assert_eq!(MAX_BLOCK, 1_048_576);
}

#[test]
fn default_access_pattern_is_random() {
    assert_eq!(AccessPattern::default(), AccessPattern::RandomAccess);
}

#[test]
fn default_statistics_are_zero() {
    let stats = SeekableHttpReaderStatistics::default();
    assert_eq!(stats.num_http_streams, 0);
    assert_eq!(stats.cache_hits, 0);
    assert_eq!(stats.cache_misses, 0);
    assert_eq!(stats.cache_shrinks, 0);
}

#[test]
fn counters_stop_at_the_top() {
    assert_eq!(raise(0), 1);
    assert_eq!(raise(41), 42);
    assert_eq!(raise(usize::MAX - 1), usize::MAX);
    assert_eq!(raise(usize::MAX), usize::MAX);
}

#[test]
fn cache_cell_basics() {
    let cell = CacheCell::new(vec![1, 2, 3]);
    assert_eq!(cell.len(), 3);
    assert!(!cell.entirely_consumed());
    let empty = CacheCell::new(Vec::new());
    assert_eq!(empty.len(), 0);
    assert!(empty.entirely_consumed());
}

#[test]
fn limit_is_raised_to_one_block() {
    assert_eq!(State::new(Some(4), AccessPattern::RandomAccess).readahead_limit(), Some(MAX_BLOCK));
    assert_eq!(
        State::new(Some(MAX_BLOCK), AccessPattern::RandomAccess).readahead_limit(),
        Some(MAX_BLOCK)
    );
    assert_eq!(
        State::new(Some(MAX_BLOCK + 1), AccessPattern::RandomAccess).readahead_limit(),
        Some(MAX_BLOCK + 1)
    );
    assert_eq!(State::new(None, AccessPattern::RandomAccess).readahead_limit(), None);
}

#[test]
fn new_state_is_empty() {
    let state = State::new(None, AccessPattern::SequentialIsh);
    assert_eq!(state.access_pattern(), AccessPattern::SequentialIsh);
    assert_eq!(state.current_size(), 0);
    assert_eq!(state.block_count(), 0);
    assert!(!state.read_in_progress());
    assert_eq!(state.stats(), SeekableHttpReaderStatistics::default());
}

#[test]
fn lookup_misses_on_empty_cache() {
    let mut state = State::new(None, AccessPattern::RandomAccess);
    let mut buf = [9u8; 4];
    assert_eq!(state.read_from_cache(0, &mut buf), None);
    assert_eq!(buf, [9u8; 4]);
    assert_eq!(state.stats().cache_hits, 0);
}

#[test]
fn lookup_copies_from_the_covering_block() {
    let mut state = State::new(None, AccessPattern::RandomAccess);
    state.insert(10, b"abcdef".to_vec());
    state.insert(100, b"uvwxyz".to_vec());
    assert_eq!(state.current_size(), 12);
    assert_eq!(state.block_count(), 2);
    let mut buf = [b'.'; 4];
    assert_eq!(state.read_from_cache(9, &mut buf), None);
    assert_eq!(state.read_from_cache(16, &mut buf), None);
    assert_eq!(state.read_from_cache(99, &mut buf), None);
    assert_eq!(state.read_from_cache(106, &mut buf), None);
    assert_eq!(&buf, b"....");
    assert_eq!(state.read_from_cache(10, &mut buf), Some(4));
    assert_eq!(&buf, b"abcd");
    assert_eq!(state.read_from_cache(13, &mut buf), Some(3));
    assert_eq!(&buf, b"defd");
    assert_eq!(state.read_from_cache(105, &mut buf), Some(1));
    assert_eq!(&buf, b"zefd");
    assert_eq!(state.read_from_cache(101, &mut buf), Some(4));
    assert_eq!(&buf, b"vwxy");
    assert_eq!(state.stats().cache_hits, 4);
    assert_eq!(state.block_count(), 2);
    assert_eq!(state.current_size(), 12);
}

#[test]
fn lookup_with_empty_buffer_copies_nothing() {
    let mut state = State::new(None, AccessPattern::SequentialIsh);
    state.insert(0, b"abc".to_vec());
    let mut buf = [0u8; 0];
    assert_eq!(state.read_from_cache(1, &mut buf), Some(0));
    assert_eq!(state.block_count(), 1);
    assert_eq!(state.stats().cache_hits, 1);
}

#[test]
fn sequential_discards_consumed_blocks() {
    let mut state = State::new(None, AccessPattern::SequentialIsh);
    state.insert(0, b"abcdef".to_vec());
    let mut buf = [0u8; 4];
    assert_eq!(state.read_from_cache(0, &mut buf), Some(4));
    assert_eq!(state.block_count(), 1);
    assert_eq!(state.current_size(), 6);
    assert_eq!(state.read_from_cache(4, &mut buf), Some(2));
    assert_eq!(&buf, b"efcd");
    assert_eq!(state.block_count(), 0);
    assert_eq!(state.current_size(), 0);
    assert_eq!(state.read_from_cache(4, &mut buf), None);
}

#[test]
fn random_access_keeps_consumed_blocks() {
    let mut state = State::new(None, AccessPattern::RandomAccess);
    state.insert(0, b"abcdef".to_vec());
    let mut buf = [0u8; 6];
    for _ in 0..3 {
        assert_eq!(state.read_from_cache(0, &mut buf), Some(6));
        assert_eq!(&buf, b"abcdef");
    }
    assert_eq!(state.block_count(), 1);
    assert_eq!(state.current_size(), 6);
    assert_eq!(state.stats().cache_hits, 3);
}

#[test]
fn insert_at_same_offset_replaces() {
    let mut state = State::new(None, AccessPattern::RandomAccess);
    state.insert(5, b"abc".to_vec());
    state.insert(5, b"vwxyz".to_vec());
    assert_eq!(state.block_count(), 1);
    assert_eq!(state.current_size(), 5);
    let mut buf = [0u8; 5];
    assert_eq!(state.read_from_cache(5, &mut buf), Some(5));
    assert_eq!(&buf, b"vwxyz");
}

#[test]
fn insert_keeps_blocks_in_offset_order() {
    let mut state = State::new(Some(2 * MAX_BLOCK), AccessPattern::RandomAccess);
    state.insert(3 * MAX_BLOCK as u64, vec![3u8; MAX_BLOCK]);
    state.insert(MAX_BLOCK as u64, vec![1u8; MAX_BLOCK]);
    assert_eq!(state.block_count(), 2);
    assert_eq!(state.current_size(), 2 * MAX_BLOCK);
    assert_eq!(state.stats().cache_shrinks, 0);
    state.insert(2 * MAX_BLOCK as u64, vec![2u8; MAX_BLOCK]);
    assert_eq!(state.block_count(), 2);
    assert_eq!(state.current_size(), 2 * MAX_BLOCK);
    assert_eq!(state.stats().cache_shrinks, 1);
    let mut buf = [0u8; 1];
    assert_eq!(state.read_from_cache(MAX_BLOCK as u64, &mut buf), None);
    assert_eq!(state.read_from_cache(2 * MAX_BLOCK as u64, &mut buf), Some(1));
    assert_eq!(buf, [2]);
    assert_eq!(state.read_from_cache(3 * MAX_BLOCK as u64, &mut buf), Some(1));
    assert_eq!(buf, [3]);
}

#[test]
fn insert_below_a_full_cache_drops_the_new_block() {
    let mut state = State::new(Some(MAX_BLOCK), AccessPattern::RandomAccess);
    state.insert(5 * MAX_BLOCK as u64, vec![5u8; MAX_BLOCK]);
    state.insert(0, vec![1u8; MAX_BLOCK]);
    assert_eq!(state.block_count(), 1);
    assert_eq!(state.current_size(), MAX_BLOCK);
    assert_eq!(state.stats().cache_shrinks, 1);
    let mut buf = [0u8; 1];
    assert_eq!(state.read_from_cache(0, &mut buf), None);
    assert_eq!(state.read_from_cache(5 * MAX_BLOCK as u64, &mut buf), Some(1));
    assert_eq!(buf, [5]);
}

#[test]
fn eviction_can_drop_several_blocks() {
    let mut state = State::new(Some(MAX_BLOCK), AccessPattern::RandomAccess);
    state.insert(0, vec![0u8; MAX_BLOCK / 2]);
    state.insert(MAX_BLOCK as u64, vec![1u8; MAX_BLOCK / 2]);
    assert_eq!(state.block_count(), 2);
    state.insert(2 * MAX_BLOCK as u64, vec![2u8; MAX_BLOCK]);
    assert_eq!(state.block_count(), 1);
    assert_eq!(state.current_size(), MAX_BLOCK);
    assert_eq!(state.stats().cache_shrinks, 2);
}

#[test]
fn overlapping_blocks_answer_from_the_later_one() {
    let mut state = State::new(None, AccessPattern::RandomAccess);
    state.insert(0, b"abcdefgh".to_vec());
    state.insert(4, b"EFGHIJ".to_vec());
    let mut buf = [0u8; 8];
    assert_eq!(state.read_from_cache(5, &mut buf), Some(5));
    assert_eq!(&buf[..5], b"FGHIJ");
    assert_eq!(state.read_from_cache(2, &mut buf), Some(6));
    assert_eq!(&buf[..6], b"cdefgh");
}

#[test]
fn fetch_role_flags_and_counters() {
    let mut state = State::new(None, AccessPattern::RandomAccess);
    state.claim_fetch();
    assert!(state.read_in_progress());
    assert_eq!(state.stats().cache_misses, 1);
    state.release_fetch(true);
    assert!(!state.read_in_progress());
    assert_eq!(state.stats().num_http_streams, 1);
    state.claim_fetch();
    state.release_fetch(false);
    assert_eq!(state.stats().num_http_streams, 1);
    assert_eq!(state.stats().cache_misses, 2);
}

#[test]
fn hint_changes_that_reopen() {
    let mut state = State::new(None, AccessPattern::RandomAccess);
    assert!(!state.would_reopen(AccessPattern::RandomAccess));
    assert!(state.would_reopen(AccessPattern::SequentialIsh));
    assert!(state.set_expected_access_pattern(AccessPattern::SequentialIsh));
    assert_eq!(state.stats().num_http_streams, 1);
    assert!(!state.would_reopen(AccessPattern::SequentialIsh));
    assert!(!state.would_reopen(AccessPattern::RandomAccess));
    assert!(!state.set_expected_access_pattern(AccessPattern::RandomAccess));
    assert_eq!(state.access_pattern(), AccessPattern::RandomAccess);
    assert_eq!(state.stats().num_http_streams, 1);
}

#[test]
fn directory_names_end_in_a_slash() {
    assert!(is_directory_name(b"dir/"));
    assert!(is_directory_name(b"a/b/"));
    assert!(is_directory_name(b"/"));
    assert!(!is_directory_name(b"dir/file"));
    assert!(!is_directory_name(b"file"));
    assert!(!is_directory_name(b""));
}
