use stream_window::buffer::WindowBuffer;

fn chunk_of(value: i16, len: usize) -> Vec<i16> {
    vec![value; len]
}

#[test]
fn new_buffer_is_empty() {
    let buffer = WindowBuffer::new();
    assert!(buffer.is_empty());
    assert_eq!(buffer.len(), 0);
    assert_eq!(buffer.snapshot(), Vec::<i16>::new());
}

#[test]
fn append_below_the_bound_keeps_everything() {
    let mut buffer = WindowBuffer::new();
    buffer.append(&[1, 2, 3]);
    buffer.append(&[4, 5, 6]);
    assert_eq!(buffer.snapshot(), vec![1, 2, 3, 4, 5, 6]);
    assert_eq!(buffer.len(), 6);
    assert!(!buffer.is_empty());
}

#[test]
fn sixteen_chunks_fit_exactly() {
    let mut buffer = WindowBuffer::new();
    for i in 0..16 {
        buffer.append(&chunk_of(i as i16, 100));
    }
    assert_eq!(buffer.len(), 1600);
    let held = buffer.snapshot();
    assert_eq!(&held[..100], &chunk_of(0, 100)[..]);
    assert_eq!(&held[1500..], &chunk_of(15, 100)[..]);
}

#[test]
fn seventeenth_chunk_evicts_the_first() {
    let mut buffer = WindowBuffer::new();
    for i in 0..17 {
        buffer.append(&chunk_of(i as i16, 100));
        assert!(buffer.len() <= 1600);
    }
    assert_eq!(buffer.len(), 1600);
    let held = buffer.snapshot();
    assert_eq!(&held[1500..], &chunk_of(16, 100)[..]);
    assert_eq!(&held[..100], &chunk_of(1, 100)[..]);
    let mut expected: Vec<i16> = Vec::new();
    for i in 1..17 {
        expected.extend_from_slice(&chunk_of(i as i16, 100));
    }
    assert_eq!(held, expected);
}

#[test]
fn eviction_returns_a_suffix_in_order() {
    let mut buffer = WindowBuffer::new();
    let first: Vec<i16> = (0..16).collect();
    buffer.append(&first);
    buffer.append(&[100]);
    // 17 samples held, more than 16 times the chunk of one: one sample leaves.
    let expected: Vec<i16> = (1..16).chain(std::iter::once(100)).collect();
    assert_eq!(buffer.snapshot(), expected);
}

#[test]
fn evict_drops_one_chunk_only_past_the_bound() {
    let mut buffer = WindowBuffer::new();
    let samples: Vec<i16> = (0..33).collect();
    buffer.append(&samples);
    assert_eq!(buffer.evict(3), 0);
    assert_eq!(buffer.len(), 33);
    assert_eq!(buffer.evict(2), 2);
    let expected: Vec<i16> = (2..33).collect();
    assert_eq!(buffer.snapshot(), expected);
    assert_eq!(buffer.evict(2), 0);
    assert_eq!(buffer.evict(0), 0);
    assert_eq!(buffer.snapshot(), expected);
}

#[test]
fn shorter_chunk_drops_only_its_own_length() {
    let mut buffer = WindowBuffer::new();
    for i in 0..16 {
        buffer.append(&chunk_of(i as i16, 100));
    }
    buffer.append(&[7]);
    assert_eq!(buffer.len(), 1600);
    let held = buffer.snapshot();
    assert_eq!(held[1599], 7);
    assert_eq!(&held[..99], &chunk_of(0, 99)[..]);
    assert_eq!(held[99], 1);
}

#[test]
fn empty_chunk_changes_nothing() {
    let mut buffer = WindowBuffer::new();
    buffer.append(&[]);
    assert!(buffer.is_empty());
    buffer.append(&[5, 6]);
    buffer.append(&[]);
    // two samples are more than sixteen times nothing, and nothing leaves
    assert_eq!(buffer.snapshot(), vec![5, 6]);
}

#[test]
fn snapshot_is_a_copy() {
    let mut buffer = WindowBuffer::new();
    buffer.append(&[1, 2]);
    let mut copy = buffer.snapshot();
    copy.push(3);
    buffer.append(&[9]);
    assert_eq!(copy, vec![1, 2, 3]);
    assert_eq!(buffer.snapshot(), vec![1, 2, 9]);
}
