use moomoot::ringbuffer::FixedRingBuffer;

#[test]
fn test_ringbuffer() {
    let mut ring = FixedRingBuffer::from_vec(vec![0.0; 10]);

    for i in 1..100 {
        let mut value = i as f64;
        ring.queue(&mut value);
        if i < 10 {
            assert_eq!(value, 0.0);
        } else {
            assert_eq!(value, (i as f64) - 10.0);
        }
    }
}

#[test]
fn queue_hands_back_the_oldest_entry() {
    let mut ring = FixedRingBuffer::from_vec(vec![7i64, 5, 3]);
    assert_eq!(ring.len(), 3);
    // queue order is newest first: the last slot leaves first
    let mut v: i64 = 100;
    ring.queue(&mut v);
    assert_eq!(v, 3);
    let mut v2: i64 = 200;
    ring.queue(&mut v2);
    assert_eq!(v2, 5);
    let mut v3: i64 = 300;
    ring.queue(&mut v3);
    assert_eq!(v3, 7);
    // now the line holds what was queued, in order
    let mut v4: i64 = 0;
    ring.queue(&mut v4);
    assert_eq!(v4, 100);
}

#[test]
fn set_all_resets_the_line() {
    let mut ring = FixedRingBuffer::from_vec(vec![1i64, 2, 3, 4]);
    ring.set_all(9);
    for _ in 0..4 {
        let mut v: i64 = 0;
        ring.queue(&mut v);
        assert_eq!(v, 9);
    }
}
