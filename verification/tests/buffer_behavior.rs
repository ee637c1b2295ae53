use spanpipe::buffer::{BoundedBuffer, OverflowPolicy};
use spanpipe::span::Span;

fn span(id: u64) -> Span {
    Span {
        id,
        parent: None,
        name: format!("span-{}", id),
        start: id,
        end: id + 1,
        attrs: Vec::new(),
    }
}

#[test]
fn capacity_is_never_exceeded() {
    let mut b = BoundedBuffer::new(3, OverflowPolicy::DropNewest);
    for id in 1..=5 {
        b.push(span(id));
        assert!(b.len() <= 3);
    }
    assert_eq!(b.len(), 3);
    assert_eq!(b.dropped(), 2);
}

#[test]
fn drop_newest_keeps_the_oldest_spans() {
    let mut b = BoundedBuffer::new(2, OverflowPolicy::DropNewest);
    assert!(b.push(span(1)));
    assert!(b.push(span(2)));
    assert!(!b.push(span(3)));
    let batch = b.drain_up_to(10);
    let ids: Vec<u64> = batch.iter().map(|s| s.id).collect();
    assert_eq!(ids, vec![1, 2]);
    assert_eq!(b.dropped(), 1);
}

#[test]
fn drop_oldest_makes_room_for_the_newest() {
    let mut b = BoundedBuffer::new(2, OverflowPolicy::DropOldest);
    assert!(b.push(span(1)));
    assert!(b.push(span(2)));
    assert!(!b.push(span(3)));
    let batch = b.drain_up_to(10);
    let ids: Vec<u64> = batch.iter().map(|s| s.id).collect();
    assert_eq!(ids, vec![2, 3]);
    assert_eq!(b.dropped(), 1);
}

#[test]
fn drain_removes_a_prefix_in_completion_order() {
    let mut b = BoundedBuffer::new(8, OverflowPolicy::DropNewest);
    for id in 1..=4 {
        b.push(span(id));
    }
    let first = b.drain_up_to(2);
    let ids: Vec<u64> = first.iter().map(|s| s.id).collect();
    assert_eq!(ids, vec![1, 2]);
    assert_eq!(b.len(), 2);
    let rest = b.drain_up_to(2);
    let ids: Vec<u64> = rest.iter().map(|s| s.id).collect();
    assert_eq!(ids, vec![3, 4]);
    assert_eq!(b.len(), 0);
}

#[test]
fn drain_of_more_than_buffered_returns_everything() {
    let mut b = BoundedBuffer::new(4, OverflowPolicy::DropNewest);
    b.push(span(1));
    b.push(span(2));
    let batch = b.drain_up_to(100);
    assert_eq!(batch.len(), 2);
    assert_eq!(b.len(), 0);
    let empty = b.drain_up_to(100);
    assert!(empty.is_empty());
}
