use haptic_audio::buffer::AccumulationBuffer;

fn chunk_with_header(header_fill: u8, body: &[u8]) -> Vec<u8> {
    let mut v = vec![header_fill; 44];
    v.extend_from_slice(body);
    v
}

#[test]
fn new_buffer_is_empty() {
    let b = AccumulationBuffer::new();
    assert!(b.is_empty());
    assert_eq!(b.len(), 0);
}

#[test]
fn drain_empty_buffer_returns_nothing() {
    let mut b = AccumulationBuffer::new();
    let out = b.drain();
    assert!(out.is_empty());
    assert!(b.is_empty());
}

#[test]
fn first_chunk_kept_in_full() {
    let mut b = AccumulationBuffer::new();
    let c1 = chunk_with_header(9, &[1, 2, 3]);
    b.append(&c1);
    assert_eq!(b.len(), c1.len());
    let out = b.drain();
    assert_eq!(out, c1);
    assert!(b.is_empty());
}

#[test]
fn later_chunks_lose_their_header() {
    let mut b = AccumulationBuffer::new();
    let c1 = chunk_with_header(1, &[10, 11]);
    let c2 = chunk_with_header(2, &[20]);
    let c3 = chunk_with_header(3, &[30, 31, 32]);
    b.append(&c1);
    b.append(&c2);
    b.append(&c3);
    let out = b.drain();
    let mut expected = c1.clone();
    expected.extend_from_slice(&c2[44..]);
    expected.extend_from_slice(&c3[44..]);
    assert_eq!(out, expected);
}

#[test]
fn chunk_after_drain_keeps_its_header() {
    let mut b = AccumulationBuffer::new();
    let c1 = chunk_with_header(1, &[10]);
    let c2 = chunk_with_header(2, &[20]);
    b.append(&c1);
    let d1 = b.drain();
    b.append(&c2);
    let d2 = b.drain();
    assert_eq!(d1, c1);
    assert_eq!(d2, c2);
}

#[test]
fn interleaved_appends_and_drains_conserve_bytes() {
    let mut b = AccumulationBuffer::new();
    let c1 = chunk_with_header(1, &[10, 11]);
    let c2 = chunk_with_header(2, &[20, 21, 22]);
    let c3 = chunk_with_header(3, &[30]);
    b.append(&c1);
    let d1 = b.drain();
    b.append(&c2);
    b.append(&c3);
    let d2 = b.drain();
    let mut contributed = c1.clone();
    contributed.extend_from_slice(&c2);
    contributed.extend_from_slice(&c3[44..]);
    let mut seen = d1.clone();
    seen.extend_from_slice(&d2);
    assert_eq!(seen, contributed);
    assert!(b.is_empty());
}

#[test]
fn header_only_chunk_contributes_nothing_after_first() {
    let mut b = AccumulationBuffer::new();
    let c1 = chunk_with_header(1, &[10]);
    let c2 = chunk_with_header(2, &[]);
    b.append(&c1);
    b.append(&c2);
    let out = b.drain();
    assert_eq!(out, c1);
}
