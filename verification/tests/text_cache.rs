use sessy::text_cache::{write_text_cache, TextCache};

#[test]
fn test_text_cache_roundtrip() {
    let a = b"hello".to_vec();
    let b = b"world!".to_vec();
    let (contents, pairs) = write_text_cache(&vec![a, b]);
    assert_eq!(pairs[0], (0, 5));
    assert_eq!(pairs[1], (5, 6));

    let cache = TextCache::open(Some(&contents));
    assert_eq!(cache.slice(0, 5), b"hello");
    assert_eq!(cache.slice(5, 6), b"world!");
    assert_eq!(cache.slice(11, 1), b""); // out of range
}

#[test]
fn test_text_cache_missing_file_safe() {
    let cache = TextCache::open(None);
    assert_eq!(cache.len(), 0);
    assert_eq!(cache.slice(0, 5), b"");
}

#[test]
fn every_chunk_is_read_back_at_its_place() {
    let chunks = vec![b"one".to_vec(), Vec::new(), "zwölf".as_bytes().to_vec(), b"x".to_vec()];
    let (contents, pairs) = write_text_cache(&chunks);
    let cache = TextCache::open(Some(&contents));
    assert_eq!(cache.len(), 10);
    for (chunk, (offset, len)) in chunks.iter().zip(pairs) {
        assert_eq!(cache.slice(offset, len), chunk.as_slice());
    }
}

#[test]
fn slices_past_the_end_are_empty() {
    let contents = b"abc".to_vec();
    let cache = TextCache::open(Some(&contents));
    assert_eq!(cache.slice(0, 3), b"abc");
    assert_eq!(cache.slice(1, 3), b"");
    assert_eq!(cache.slice(3, 0), b"");
    assert_eq!(cache.slice(u64::MAX, u32::MAX), b"");
    let nothing: Vec<u8> = Vec::new();
    assert_eq!(TextCache::open(Some(&nothing)).slice(0, 0), b"");
}
