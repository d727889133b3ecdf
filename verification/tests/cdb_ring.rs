use windbgr_mcp::cdb::ring::RingBuffer;

#[test]
fn wraparound_and_read_since() {
    let mut ring = RingBuffer::new(8);
    ring.push(b"01234");
    ring.push(b"56789");
    assert_eq!(ring.total_written(), 10);
    assert_eq!(ring.earliest_offset(), 2);
    let (bytes, next, truncated) = ring.read_since(0);
    assert_eq!(bytes, b"23456789");
    assert_eq!(next, 10);
    assert!(truncated);

    let (bytes, next, truncated) = ring.read_since(6);
    assert_eq!(bytes, b"6789");
    assert_eq!(next, 10);
    assert!(!truncated);
}

#[test]
fn tail_snapshot() {
    let mut ring = RingBuffer::new(16);
    ring.push(b"hello world");
    assert_eq!(ring.snapshot_tail(5), "world");
    assert_eq!(ring.snapshot_tail(100), "hello world");
}

#[test]
fn read_after_write_returns_the_chunk() {
    let mut ring = RingBuffer::new(8);
    ring.push(b"abcdef");
    let before = ring.total_written();
    ring.push(b"XYZ");
    let (bytes, next, truncated) = ring.read_since(before);
    assert_eq!(bytes, b"XYZ");
    assert_eq!(next, 9);
    assert!(!truncated);
}

#[test]
fn read_at_total_is_empty() {
    let mut ring = RingBuffer::new(4);
    ring.push(b"abcdefgh");
    let (bytes, next, truncated) = ring.read_since(ring.total_written());
    assert!(bytes.is_empty());
    assert_eq!(next, 8);
    assert!(!truncated);
    let (bytes, next, truncated) = ring.read_since(100);
    assert!(bytes.is_empty());
    assert_eq!(next, 8);
    assert!(!truncated);
}

#[test]
fn oversized_chunk_keeps_its_tail() {
    let mut ring = RingBuffer::new(3);
    ring.push(b"ab");
    ring.push(b"123456");
    assert_eq!(ring.total_written(), 8);
    assert_eq!(ring.earliest_offset(), 5);
    assert_eq!(ring.read_since(0).0, b"456");
}

#[test]
fn zero_capacity_retains_nothing() {
    let mut ring = RingBuffer::new(0);
    ring.push(b"abc");
    assert_eq!(ring.total_written(), 3);
    assert_eq!(ring.earliest_offset(), 3);
    assert_eq!(ring.snapshot_tail(10), "");
    assert_eq!(ring.read_since(0), (Vec::new(), 3, true));
}

#[test]
fn offsets_never_move_backwards() {
    let mut ring = RingBuffer::new(5);
    let mut last = (ring.total_written(), ring.earliest_offset());
    for chunk in [&b"ab"[..], b"cdefg", b"", b"hi", b"jklmnopq"] {
        ring.push(chunk);
        let now = (ring.total_written(), ring.earliest_offset());
        assert!(now.0 >= last.0 && now.1 >= last.1);
        last = now;
    }
}

#[test]
fn snapshot_tail_decodes_lossily() {
    let mut ring = RingBuffer::new(8);
    ring.push(&[b'a', 0xff, b'b']);
    assert_eq!(ring.snapshot_tail(8), "a\u{fffd}b");
}
