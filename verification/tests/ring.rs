use sigint::rf::{parse_hackrf_fields, RingBuffer};

#[test]
fn ring_buffer_drops_oldest() {
    let mut buf: RingBuffer<u32> = RingBuffer::new(3);
    buf.push(1);
    buf.push(2);
    buf.push(3);
    buf.push(4);
    let items = buf.drain_all();
    assert_eq!(items, vec![2, 3, 4]);
}

#[test]
fn ring_buffer_drain_empties() {
    let mut buf: RingBuffer<u32> = RingBuffer::new(10);
    buf.push(1);
    buf.push(2);
    let _ = buf.drain_all();
    assert!(buf.is_empty());
}

#[test]
fn ring_buffer_receives_parsed_observations() {
    let mut buf = RingBuffer::new(100);
    let line = "2024-01-15, 12:30:00, 2400000000, 2500000000, 1000000, 10, -72.3, -68.1, -74.5";
    if let Some(obs) = parse_hackrf_fields(line) {
        buf.push(obs);
    }
    assert_eq!(buf.len(), 1);
}

#[test]
fn ring_buffer_keeps_newest_capacity_items() {
    let mut buf: RingBuffer<u32> = RingBuffer::new(2);
    for i in 0..10u32 {
        buf.push(i);
        assert!(buf.len() <= 2);
    }
    assert_eq!(buf.drain_all(), vec![8, 9]);
    assert_eq!(buf.len(), 0);
}

#[test]
fn ring_buffer_below_capacity_keeps_all() {
    let mut buf: RingBuffer<&str> = RingBuffer::new(5);
    buf.push("a");
    buf.push("b");
    assert_eq!(buf.len(), 2);
    assert!(!buf.is_empty());
    assert_eq!(buf.drain_all(), vec!["a", "b"]);
}

#[test]
fn ring_many_pushes_keep_last_capacity_items() {
    let mut b = RingBuffer::new(4);
    for k in 0..10u32 {
        b.push(k);
        assert_eq!(b.len(), std::cmp::min(k as usize + 1, 4));
    }
    assert_eq!(b.drain_all(), vec![6, 7, 8, 9]);
}

#[test]
fn ring_of_capacity_zero_keeps_nothing() {
    let mut b = RingBuffer::new(0);
    b.push(1u32);
    b.push(2);
    assert_eq!(b.len(), 0);
    assert!(b.drain_all().is_empty());
}
