use each::readers::{CachedReader, ReadStep, CACHE_LEN};

/// Reads through a replay reader as a caller with a buffer of `want` bytes
/// would, from a source that hands out at most `chunk` bytes at a time.
fn read_through(
    reader: &mut CachedReader,
    source: &[u8],
    position: &mut usize,
    want: usize,
    chunk: usize,
) -> Vec<u8> {
    match reader.begin_read(want) {
        ReadStep::Cached(bytes) => bytes,
        ReadStep::Live => {
            let n = want.min(chunk).min(source.len() - *position);
            let bytes = source[*position..*position + n].to_vec();
            *position += n;
            reader.absorb(&bytes);
            bytes
        }
    }
}

fn sample(len: usize) -> Vec<u8> {
    (0..len).map(|i| (i * 7 % 251) as u8).collect()
}

#[test]
fn a_new_reader_retains_nothing() {
    let reader = CachedReader::new();
    assert_eq!(reader.retained(), 0);
    assert_eq!(reader.window(), Vec::<u8>::new());
}

#[test]
fn reads_without_rewind_pass_the_source_through() {
    let source = sample(10_000);
    let mut reader = CachedReader::new();
    let mut position = 0;
    let mut delivered = Vec::new();
    let wants = [1usize, 5, 4096, 17, 3000, 8192, 1];
    let mut turn = 0;
    while delivered.len() < source.len() {
        let want = wants[turn % wants.len()];
        turn += 1;
        let bytes = read_through(&mut reader, &source, &mut position, want, 1000);
        assert!(bytes.len() <= want);
        delivered.extend_from_slice(&bytes);
    }
    assert_eq!(delivered, source);
    assert_eq!(position, source.len());
}

#[test]
fn the_window_never_exceeds_the_cache_length() {
    let source = sample(3 * CACHE_LEN);
    let mut reader = CachedReader::new();
    let mut position = 0;
    while position < source.len() {
        read_through(&mut reader, &source, &mut position, 3000, 3000);
        assert!(reader.retained() <= CACHE_LEN);
    }
    assert_eq!(reader.retained(), CACHE_LEN);
    assert_eq!(reader.window(), source[..CACHE_LEN].to_vec());
}

#[test]
fn a_rewind_replays_what_was_read_and_goes_on_live() {
    let source = sample(6000);
    let mut reader = CachedReader::new();
    let mut position = 0;
    let first = read_through(&mut reader, &source, &mut position, CACHE_LEN, 1500);
    assert_eq!(first, source[..1500].to_vec());
    reader.rewind();
    let mut delivered = Vec::new();
    let mut reads = 0;
    while delivered.len() < source.len() {
        let bytes = read_through(&mut reader, &source, &mut position, 700, 700);
        // The first 1500 bytes come back without a read of the source.
        if delivered.len() < 1500 {
            assert_eq!(position, 1500);
        }
        delivered.extend_from_slice(&bytes);
        reads += 1;
        assert!(reads < 100);
    }
    assert_eq!(delivered, source);
}

#[test]
fn cached_reads_stop_at_the_end_of_the_window() {
    let source = sample(100);
    let mut reader = CachedReader::new();
    let mut position = 0;
    read_through(&mut reader, &source, &mut position, 60, 60);
    reader.rewind();
    match reader.begin_read(40) {
        ReadStep::Cached(bytes) => assert_eq!(bytes, source[..40].to_vec()),
        ReadStep::Live => panic!("the window holds 60 bytes"),
    }
    match reader.begin_read(40) {
        ReadStep::Cached(bytes) => assert_eq!(bytes, source[40..60].to_vec()),
        ReadStep::Live => panic!("the window holds 20 more bytes"),
    }
    assert!(matches!(reader.begin_read(40), ReadStep::Live));
}

#[test]
fn a_request_for_no_bytes_inside_the_window_is_answered_from_it() {
    let mut reader = CachedReader::new();
    assert!(matches!(reader.begin_read(8), ReadStep::Live));
    reader.absorb(b"abcd");
    reader.rewind();
    match reader.begin_read(0) {
        ReadStep::Cached(bytes) => assert!(bytes.is_empty()),
        ReadStep::Live => panic!("the cursor is inside the window"),
    }
}

#[test]
fn a_failed_read_leaves_the_state_untouched() {
    let mut reader = CachedReader::new();
    assert!(matches!(reader.begin_read(8), ReadStep::Live));
    reader.absorb(b"abcd");
    // The source fails: nothing is reported to the reader.
    assert!(matches!(reader.begin_read(8), ReadStep::Live));
    assert_eq!(reader.window(), b"abcd".to_vec());
    reader.rewind();
    match reader.begin_read(8) {
        ReadStep::Cached(bytes) => assert_eq!(bytes, b"abcd".to_vec()),
        ReadStep::Live => panic!("four bytes are retained"),
    }
}

#[test]
fn bytes_past_the_window_are_not_retained() {
    let source = sample(CACHE_LEN + 10);
    let mut reader = CachedReader::new();
    assert!(matches!(reader.begin_read(source.len()), ReadStep::Live));
    reader.absorb(&source);
    assert_eq!(reader.retained(), CACHE_LEN);
    assert!(matches!(reader.begin_read(1), ReadStep::Live));
    reader.absorb(b"x");
    assert_eq!(reader.window(), source[..CACHE_LEN].to_vec());
}

#[test]
fn absorbing_inside_the_window_changes_nothing() {
    let mut reader = CachedReader::new();
    reader.absorb(b"abcdef");
    reader.rewind();
    reader.absorb(b"xyz");
    assert_eq!(reader.window(), b"abcdef".to_vec());
    match reader.begin_read(6) {
        ReadStep::Cached(bytes) => assert_eq!(bytes, b"abcdef".to_vec()),
        ReadStep::Live => panic!("six bytes are retained"),
    }
}
