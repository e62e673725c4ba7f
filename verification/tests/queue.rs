use block_pool::Queue;

#[test]
fn a_new_queue_serves_in_the_order_given() {
    let mut queue = Queue::new(vec!['A', 'B', 'C']);
    assert_eq!(queue.len(), 3);
    assert_eq!(queue.take(), Some('A'));
    assert_eq!(queue.take(), Some('B'));
    assert_eq!(queue.take(), Some('C'));
    assert_eq!(queue.take(), None);
    assert_eq!(queue.len(), 0);
}

#[test]
fn take_on_an_empty_queue_changes_nothing() {
    let mut queue: Queue<u32> = Queue::new(Vec::new());
    assert_eq!(queue.take(), None);
    assert_eq!(queue.len(), 0);
    queue.put(3);
    assert_eq!(queue.len(), 1);
    assert_eq!(queue.take(), Some(3));
    assert_eq!(queue.take(), None);
}

#[test]
fn put_appends_behind_what_waits() {
    let mut queue = Queue::new(vec![1, 2]);
    queue.put(3);
    assert_eq!(queue.len(), 3);
    assert_eq!(queue.take(), Some(1));
    queue.put(1);
    assert_eq!(queue.take(), Some(2));
    assert_eq!(queue.take(), Some(3));
    assert_eq!(queue.take(), Some(1));
    assert_eq!(queue.take(), None);
}

#[test]
fn claim_moves_the_front_into_the_slot() {
    let mut queue = Queue::new(vec![String::from("a"), String::from("b")]);
    let mut slot = None;
    assert!(!queue.claim(&mut slot));
    assert_eq!(slot, Some(String::from("a")));
    assert_eq!(queue.len(), 1);
    assert!(!queue.claim(&mut slot));
    assert_eq!(slot, Some(String::from("b")));
    assert_eq!(queue.len(), 0);
}

#[test]
fn claim_on_an_empty_queue_says_wait() {
    let mut queue: Queue<u8> = Queue::new(Vec::new());
    let mut slot = Some(9);
    assert!(queue.claim(&mut slot));
    assert_eq!(slot, None);
    assert!(queue.claim(&mut slot));
    assert_eq!(slot, None);
    assert_eq!(queue.len(), 0);
}

#[test]
fn a_waiting_claim_is_served_what_is_put() {
    let mut queue = Queue::new(vec!['X']);
    let mut held = None;
    assert!(!queue.claim(&mut held));
    let mut waiting = None;
    assert!(queue.claim(&mut waiting));
    assert_eq!(waiting, None);
    queue.put(held.take().unwrap());
    assert!(!queue.claim(&mut waiting));
    assert_eq!(waiting, Some('X'));
    assert_eq!(queue.len(), 0);
}

#[test]
fn len_counts_the_free_items() {
    let mut queue = Queue::new(vec![0u64; 5]);
    assert_eq!(queue.len(), 5);
    queue.take();
    queue.take();
    assert_eq!(queue.len(), 3);
    queue.put(7);
    assert_eq!(queue.len(), 4);
}

#[test]
fn reclaim_moves_the_item_behind_what_waits() {
    let mut queue = Queue::new(vec![1, 2]);
    let mut slot = Some(3);
    assert!(queue.reclaim(&mut slot));
    assert_eq!(slot, None);
    assert_eq!(queue.len(), 3);
    assert_eq!(queue.take(), Some(1));
    assert_eq!(queue.take(), Some(2));
    assert_eq!(queue.take(), Some(3));
    assert_eq!(queue.take(), None);
}

#[test]
fn reclaim_takes_an_item_once() {
    let mut queue = Queue::new(vec!['a']);
    let mut slot = None;
    assert!(!queue.claim(&mut slot));
    assert_eq!(queue.len(), 0);
    assert!(queue.reclaim(&mut slot));
    assert_eq!(queue.len(), 1);
    assert!(!queue.reclaim(&mut slot));
    assert!(!queue.reclaim(&mut slot));
    assert_eq!(slot, None);
    assert_eq!(queue.len(), 1);
    assert_eq!(queue.take(), Some('a'));
    assert_eq!(queue.take(), None);
}
