use absurd::MinHeap;

#[test]
fn min_heap() {
    let mut heap = MinHeap::new();
    heap.push("a", 4);
    heap.push("b", 2);
    heap.push("c", 3);
    assert_eq!(heap.peek(), Some(&"b"));
    assert_eq!(heap.pop_with_priority(), Some(("b", 2)));
    assert_eq!(heap.len(), 2);
    heap.push("d", 1);
    assert_eq!(heap.peek(), Some(&"d"));
    let mut heap = MinHeap::from_vec(heap.into_vec());
    assert_eq!(heap.peek(), Some(&"d"));
    heap.clear();
    assert!(heap.is_empty());
}

#[test]
fn min_heap_sorts() {
    let mut heap = MinHeap::new();
    for (i, p) in [5u64, 1, 4, 1, 3, 9, 2].iter().enumerate() {
        heap.push(i, *p);
    }
    let mut priorities = Vec::new();
    while let Some((_, p)) = heap.pop_with_priority() {
        priorities.push(p);
    }
    assert_eq!(priorities, vec![1, 1, 2, 3, 4, 5, 9]);
}

#[test]
fn min_heap_peek_with_priority() {
    let mut heap = MinHeap::new();
    assert!(heap.peek_with_priority().is_none());
    heap.push('x', 7);
    heap.push('y', 6);
    let (v, p) = heap.peek_with_priority().unwrap();
    assert_eq!((*v, *p), ('y', 6));
    assert_eq!(heap.pop(), Some('y'));
    assert_eq!(heap.pop(), Some('x'));
    assert_eq!(heap.pop(), None);
}
