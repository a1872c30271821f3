use bowling::pool::{ObjectResourcePool, UniformPool};
use std::cell::Cell;

#[test]
fn uniform_pool_starts_empty() {
    let pool: UniformPool<u64> = UniformPool::new(String::from("locals"), 112);
    assert_eq!(pool.len(), 0);
    assert_eq!(pool.label(), "locals");
    assert_eq!(pool.size(), 112);
    assert!(pool.needs_alloc(1));
    assert!(!pool.needs_alloc(0));
}

#[test]
fn alloc_buffers_makes_count_buffers_of_pool_size() {
    let mut pool: UniformPool<(u64, u32)> = UniformPool::new(String::from("locals"), 112);
    let made = Cell::new(0u32);
    pool.alloc_buffers(3, |size| {
        made.set(made.get() + 1);
        (size, made.get())
    });
    assert_eq!(pool.len(), 3);
    assert!(!pool.needs_alloc(3));
    assert!(pool.needs_alloc(4));
    assert_eq!(*pool.buffer(0), (112, 1));
    assert_eq!(*pool.buffer(2), (112, 3));
    assert_eq!(*pool.update_uniform(1), (112, 2));
}

#[test]
fn alloc_buffers_keeps_buffers_already_held() {
    let mut pool: UniformPool<u64> = UniformPool::new(String::from("locals"), 64);
    pool.alloc_buffers(2, |size| size);
    pool.alloc_buffers(5, |size| size + 1);
    assert_eq!(pool.len(), 5);
    assert_eq!(*pool.buffer(0), 64);
    assert_eq!(*pool.buffer(1), 64);
    assert_eq!(*pool.buffer(2), 65);
    assert_eq!(*pool.buffer(4), 65);
}

#[test]
fn alloc_buffers_again_makes_nothing() {
    let mut pool: UniformPool<u64> = UniformPool::new(String::from("locals"), 64);
    let calls = Cell::new(0u32);
    pool.alloc_buffers(3, |size| {
        calls.set(calls.get() + 1);
        size
    });
    pool.alloc_buffers(3, |_| {
        calls.set(calls.get() + 1);
        0
    });
    pool.alloc_buffers(1, |_| {
        calls.set(calls.get() + 1);
        0
    });
    assert_eq!(calls.get(), 3);
    assert_eq!(pool.len(), 3);
    assert_eq!(*pool.buffer(0), 64);
    assert_eq!(*pool.update_uniform(2), 64);
}

#[test]
fn resource_pool_starts_without_resources() {
    let pool: ObjectResourcePool<u32> = ObjectResourcePool::new(3);
    assert_eq!(pool.len(), 3);
    for i in 0..3 {
        assert!(!pool.is_cached(i));
    }
}

#[test]
fn ensure_resources_twice_keeps_the_first() {
    let mut pool: ObjectResourcePool<Vec<u8>> = ObjectResourcePool::new(2);
    let calls = Cell::new(0u32);
    assert!(pool.ensure_resources(1, || {
        calls.set(calls.get() + 1);
        vec![1, 2, 3]
    }));
    let first = pool.resources(1).clone();
    assert!(!pool.ensure_resources(1, || {
        calls.set(calls.get() + 1);
        vec![9]
    }));
    assert_eq!(calls.get(), 1);
    assert_eq!(pool.resources(1), &vec![1, 2, 3]);
    assert_eq!(pool.resources(1), &first);
    assert!(pool.is_cached(1));
    assert!(!pool.is_cached(0));
}

#[test]
fn ensure_resources_fills_each_index_once() {
    let mut pool: ObjectResourcePool<usize> = ObjectResourcePool::new(4);
    for round in 0..3 {
        for i in 0..4 {
            assert_eq!(pool.ensure_resources(i, || i * 10 + round), round == 0);
        }
    }
    for i in 0..4 {
        assert_eq!(*pool.resources(i), i * 10);
    }
}

#[test]
fn ensure_all_fills_only_empty_slots() {
    let mut pool: ObjectResourcePool<usize> = ObjectResourcePool::new(4);
    assert!(pool.ensure_resources(2, || 99));
    assert_eq!(pool.ensure_all(|i| i + 1), 3);
    assert_eq!(*pool.resources(0), 1);
    assert_eq!(*pool.resources(1), 2);
    assert_eq!(*pool.resources(2), 99);
    assert_eq!(*pool.resources(3), 4);
}

#[test]
fn ensure_all_twice_makes_nothing_the_second_time() {
    let mut pool: ObjectResourcePool<usize> = ObjectResourcePool::new(3);
    let calls = Cell::new(0usize);
    let make = |i: usize| {
        calls.set(calls.get() + 1);
        i * 7
    };
    assert_eq!(pool.ensure_all(&make), 3);
    assert_eq!(pool.ensure_all(&make), 0);
    assert_eq!(calls.get(), 3);
    for i in 0..3 {
        assert_eq!(*pool.resources(i), i * 7);
    }
}

#[test]
fn ensure_all_on_empty_pool() {
    let mut pool: ObjectResourcePool<u8> = ObjectResourcePool::new(0);
    assert_eq!(pool.ensure_all(|_| 1), 0);
    assert_eq!(pool.len(), 0);
}
