use convec::convec::ConVec;
use convec::layout::locate;
use convec::{AoVec, ConStack};

#[test]
fn single_threaded_aovec() {
    let mut vec = AoVec::new();
    let n: usize = 1_000_000;

    for i in 0..n {
        vec.push(i);
    }

    for i in 0..n {
        assert_eq!(vec.get(i), Some(&i));
    }
}

#[test]
fn single_threaded_constack() {
    let mut stack = ConStack::new();
    let n: usize = 1_000_000;

    for i in 0..n {
        stack.push(i);
    }

    for i in 0..n {
        assert_eq!(stack.pop(), Some(n - i - 1));
    }
    assert_eq!(stack.pop(), None);
    assert_eq!(stack.heap_size(), 0);
}

#[test]
fn locate_segment_boundaries() {
    assert_eq!(locate(0), (0, 0));
    assert_eq!(locate(31), (0, 31));
    assert_eq!(locate(32), (1, 0));
    assert_eq!(locate(95), (1, 63));
    assert_eq!(locate(96), (2, 0));
    assert_eq!(locate(223), (2, 127));
    assert_eq!(locate(224), (3, 0));
    assert_eq!(locate(480), (4, 0));
}

#[test]
fn push_assigns_consecutive_indices() {
    let mut vec = AoVec::new();
    for i in 0..300usize {
        let idx = vec.push(i * 7);
        assert_eq!(idx, i);
    }
    assert_eq!(vec.len(), 300);
}

#[test]
fn stack_lifo_order() {
    let mut stack = ConStack::new();
    stack.push(10);
    stack.push(20);
    stack.push(30);
    assert_eq!(stack.pop(), Some(30));
    assert_eq!(stack.pop(), Some(20));
    assert_eq!(stack.pop(), Some(10));
    assert_eq!(stack.pop(), None);
    assert_eq!(stack.pop(), None);
}

#[test]
fn drain_releases_storage() {
    let mut stack = ConStack::new();
    // 224 elements fill the first three segments exactly.
    for i in 0..224usize {
        stack.push(i);
    }
    assert!(stack.heap_size() > 0);
    for _ in 0..224 {
        assert!(stack.pop().is_some());
    }
    assert_eq!(stack.len(), 0);
    assert_eq!(stack.pop(), None);
    assert_eq!(stack.heap_size(), 0);
}

#[test]
fn heap_size_tracks_segments() {
    let sz = std::mem::size_of::<usize>();
    let mut stack = ConStack::new();
    assert_eq!(stack.heap_size(), 0);
    stack.push(0usize);
    // One element allocates the whole first segment of 32 slots.
    assert_eq!(stack.heap_size(), 32 * sz);
    for i in 1..32usize {
        stack.push(i);
    }
    assert_eq!(stack.heap_size(), 32 * sz);
    // The 33rd element opens the second segment of 64 slots.
    stack.push(32);
    assert_eq!(stack.heap_size(), (32 + 64) * sz);
    // Popping it drains the second segment again.
    assert_eq!(stack.pop(), Some(32));
    assert_eq!(stack.heap_size(), 32 * sz);
}

#[test]
fn access_paths_agree() {
    let mut vec = AoVec::new();
    for i in 0..100usize {
        vec.push(i * 3);
    }
    for i in 0..100usize {
        assert_eq!(vec.get(i), Some(&(i * 3)));
        assert_eq!(*vec.get_unchecked(i), i * 3);
        assert_eq!(*vec.index(i), i * 3);
    }
}

#[test]
fn get_out_of_range_is_none() {
    let mut vec = AoVec::new();
    assert_eq!(vec.get(0), None);
    vec.push(1usize);
    vec.push(2);
    vec.push(3);
    assert_eq!(vec.get(3), None);
    assert_eq!(vec.get(usize::MAX), None);
}

#[test]
fn iterator_yields_all_in_order() {
    let mut vec = AoVec::new();
    for i in 0..40usize {
        vec.push(i + 100);
    }
    let mut it = vec.iter();
    for i in 0..40usize {
        assert_eq!(it.next(), Some(&(i + 100)));
    }
    assert_eq!(it.next(), None);
    assert_eq!(it.next(), None);
    // A fresh cursor restarts at the first element.
    let mut again = vec.iter();
    assert_eq!(again.next(), Some(&100));
}

#[test]
fn stack_iterator_walks_bottom_up() {
    let mut stack = ConStack::new();
    stack.push(5usize);
    stack.push(6);
    let mut it = stack.iter();
    assert_eq!(it.next(), Some(&5));
    assert_eq!(it.next(), Some(&6));
    assert_eq!(it.next(), None);
}

#[test]
fn defaults_are_empty() {
    let vec: AoVec<u8> = AoVec::default();
    assert_eq!(vec.len(), 0);
    let mut stack: ConStack<u8> = ConStack::default();
    assert_eq!(stack.len(), 0);
    assert_eq!(stack.pop(), None);
}

#[test]
fn push_after_drain_reuses_storage() {
    let mut stack = ConStack::new();
    for i in 0..50usize {
        stack.push(i);
    }
    for _ in 0..50 {
        stack.pop();
    }
    assert_eq!(stack.heap_size(), 0);
    stack.push(7usize);
    stack.push(8);
    assert_eq!(stack.len(), 2);
    assert_eq!(stack.pop(), Some(8));
    assert_eq!(stack.pop(), Some(7));
    assert_eq!(stack.pop(), None);
}

#[test]
fn core_container_direct_use() {
    let mut core: ConVec<u32> = ConVec::new();
    assert_eq!(core.len(), 0);
    assert_eq!(core.push(11), 0);
    assert_eq!(core.push(22), 1);
    assert_eq!(core.get(0), Some(&11));
    assert_eq!(*core.index(1), 22);
    assert_eq!(core.pop(), Some(22));
    assert_eq!(core.pop(), Some(11));
    assert_eq!(core.pop(), None);
    assert_eq!(core.heap_size(), 0);
}
