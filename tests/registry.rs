use rust_queue::{QueueRegistry, SharedQueueRegistry};

fn item(text: &str, speaker: u64) -> Option<(String, u64)> {
    Some((text.to_string(), speaker))
}

#[test]
fn hello_world_scenario() {
    let mut r = QueueRegistry::new();
    r.enqueue(1, "hello".to_string(), 42);
    r.enqueue(1, "world".to_string(), 43);
    assert_eq!(r.length(1), 2);
    assert_eq!(r.dequeue(1), item("hello", 42));
    assert_eq!(r.dequeue(1), item("world", 43));
    assert_eq!(r.dequeue(1), None);
    assert_eq!(r.length(1), 0);
}

#[test]
fn clear_unused_key() {
    let mut r = QueueRegistry::new();
    r.clear(99);
    assert_eq!(r.length(99), 0);
    assert_eq!(r.dequeue(99), None);
}

#[test]
fn fifo_order_kept() {
    let mut r = QueueRegistry::new();
    for i in 0..10u64 {
        r.enqueue(7, format!("item {}", i), i);
    }
    for i in 0..10u64 {
        assert_eq!(r.dequeue(7), Some((format!("item {}", i), i)));
    }
    assert_eq!(r.dequeue(7), None);
}

#[test]
fn keys_are_isolated() {
    let mut r = QueueRegistry::new();
    r.enqueue(2, "b".to_string(), 2);
    r.enqueue(1, "a1".to_string(), 1);
    r.enqueue(1, "a2".to_string(), 1);
    assert_eq!(r.length(1), 2);
    assert_eq!(r.length(2), 1);
    r.clear(1);
    assert_eq!(r.length(2), 1);
    assert_eq!(r.dequeue(2), item("b", 2));
    assert_eq!(r.length(3), 0);
}

#[test]
fn absent_and_drained_look_alike() {
    let mut r = QueueRegistry::new();
    assert_eq!(r.length(5), 0);
    assert_eq!(r.dequeue(5), None);
    r.enqueue(5, String::new(), 0);
    assert_eq!(r.dequeue(5), item("", 0));
    assert_eq!(r.length(5), 0);
    assert_eq!(r.dequeue(5), None);
}

#[test]
fn clear_drops_pending_items() {
    let mut r = QueueRegistry::new();
    r.enqueue(3, "x".to_string(), 1);
    r.enqueue(3, "y".to_string(), 2);
    r.clear(3);
    assert_eq!(r.length(3), 0);
    assert_eq!(r.dequeue(3), None);
    r.enqueue(3, "z".to_string(), 3);
    assert_eq!(r.dequeue(3), item("z", 3));
}

#[test]
fn length_counts_enqueues_less_dequeues() {
    let mut r = QueueRegistry::new();
    for i in 0..6u64 {
        r.enqueue(8, "p".to_string(), i);
    }
    assert_eq!(r.dequeue(8), item("p", 0));
    assert_eq!(r.dequeue(8), item("p", 1));
    r.enqueue(8, "q".to_string(), 6);
    assert_eq!(r.length(8), 5);
}

#[test]
fn empty_dequeue_changes_nothing() {
    let mut r = QueueRegistry::new();
    r.enqueue(4, "keep".to_string(), 9);
    for _ in 0..5 {
        assert_eq!(r.dequeue(6), None);
    }
    assert_eq!(r.length(6), 0);
    assert_eq!(r.length(4), 1);
    assert_eq!(r.dequeue(4), item("keep", 9));
}

#[test]
fn largest_ids_are_keys_like_any() {
    let mut r = QueueRegistry::new();
    r.enqueue(u64::MAX, "top".to_string(), u64::MAX);
    assert_eq!(r.length(u64::MAX), 1);
    assert_eq!(r.length(0), 0);
    assert_eq!(r.dequeue(u64::MAX), item("top", u64::MAX));
}

#[test]
fn shared_registry_scenario() {
    let s = SharedQueueRegistry::new();
    s.enqueue(1, "hello".to_string(), 42);
    s.enqueue(1, "world".to_string(), 43);
    assert_eq!(s.length(1), 2);
    assert_eq!(s.dequeue(1), item("hello", 42));
    s.clear(1);
    assert_eq!(s.length(1), 0);
    assert_eq!(s.dequeue(1), None);
    s.enqueue(2, "left".to_string(), 5);
    let mut r = s.into_registry();
    assert_eq!(r.dequeue(2), item("left", 5));
}

#[test]
fn interleaved_producers_lose_nothing() {
    let producers: u64 = 4;
    let per_producer: u64 = 100;
    let s = SharedQueueRegistry::new();
    let mut sent = vec![0u64; producers as usize];
    let mut step: u64 = 0;
    while sent.iter().any(|&n| n < per_producer) {
        let t = (step * 7 + step / 3) % producers;
        if sent[t as usize] < per_producer {
            s.enqueue(11, format!("{}", sent[t as usize]), t);
            sent[t as usize] += 1;
        }
        step += 1;
    }
    assert_eq!(s.length(11), (producers * per_producer) as usize);
    let mut next = vec![0u64; producers as usize];
    let mut seen: u64 = 0;
    while let Some((text, t)) = s.dequeue(11) {
        assert_eq!(text, format!("{}", next[t as usize]));
        next[t as usize] += 1;
        seen += 1;
    }
    assert_eq!(seen, producers * per_producer);
    for t in 0..producers {
        assert_eq!(next[t as usize], per_producer);
    }
}
