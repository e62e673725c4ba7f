use block_pool::{Pool, Returnable};

#[test]
fn takes_in_order() {
    let pool = Pool::new(vec!['A', 'B', 'C']);
    let first = pool.take();
    let second = pool.take();
    let third = pool.take();
    assert_eq!(*first, 'A');
    assert_eq!(*second, 'B');
    assert_eq!(*third, 'C');
}

#[test]
fn takes_in_order_when_each_is_given_back() {
    let pool = Pool::new(vec!['A', 'B', 'C']);
    assert_eq!(*pool.take(), 'A');
    assert_eq!(*pool.take(), 'B');
    assert_eq!(*pool.take(), 'C');
    assert_eq!(*pool.take(), 'A');
}

#[test]
fn mutation_is_seen_by_the_next_taker() {
    let pool = Pool::new(vec![10]);
    let mut item = pool.take();
    *item += 1;
    drop(item);
    assert_eq!(*pool.take(), 11);
}

#[test]
fn nothing_resets_an_item() {
    let pool = Pool::new(vec![String::from("a"), String::from("b")]);
    {
        let mut first = pool.take();
        first.push('x');
        assert_eq!(first.len(), 2);
    }
    let second = pool.take();
    let first = pool.take();
    assert_eq!(*second, "b");
    assert_eq!(*first, "ax");
}

#[test]
fn a_returned_item_is_served_last() {
    let pool = Pool::new(vec![1, 2, 3]);
    let one = pool.take();
    assert_eq!(*one, 1);
    drop(one);
    let a = pool.take();
    let b = pool.take();
    let c = pool.take();
    assert_eq!((*a, *b, *c), (2, 3, 1));
}

#[test]
fn items_come_back_in_the_order_of_their_return() {
    let pool = Pool::new(vec![1, 2, 3]);
    let one = pool.take();
    let two = pool.take();
    let three = pool.take();
    drop(two);
    drop(three);
    drop(one);
    let a = pool.take();
    let b = pool.take();
    let c = pool.take();
    assert_eq!((*a, *b, *c), (2, 3, 1));
}

#[test]
fn the_handle_gives_the_item_back_at_the_end_of_its_scope() {
    let pool = Pool::new(vec![5]);
    for _ in 0..4 {
        let item = pool.take();
        assert_eq!(*item, 5);
    }
    assert_eq!(*pool.take(), 5);
}

#[test]
fn every_item_is_kept_through_takes_and_returns() {
    let pool = Pool::new(vec![4, 8, 15, 16, 23, 42]);
    for round in 0..5 {
        let a = pool.take();
        let b = pool.take();
        if round % 2 == 0 {
            drop(a);
            drop(b);
        } else {
            drop(b);
            drop(a);
        }
    }
    let all: Vec<Returnable<'_, i32>> = (0..6).map(|_| pool.take()).collect();
    let mut values: Vec<i32> = all.iter().map(|handle| **handle).collect();
    values.sort();
    assert_eq!(values, vec![4, 8, 15, 16, 23, 42]);
}

#[test]
fn live_handles_hold_different_items() {
    let pool = Pool::new(vec![0usize, 1, 2, 3]);
    let mut handles: Vec<Returnable<'_, usize>> = (0..4).map(|_| pool.take()).collect();
    for handle in handles.iter_mut() {
        **handle += 10;
    }
    let values: Vec<usize> = handles.iter().map(|handle| **handle).collect();
    assert_eq!(values, vec![10, 11, 12, 13]);
}

#[test]
fn one_release_returns_one_item() {
    let pool = Pool::new(vec![1, 2]);
    let one = pool.take();
    drop(one);
    let a = pool.take();
    let b = pool.take();
    assert_eq!((*a, *b), (2, 1));
    drop(a);
    drop(b);
    let c = pool.take();
    let d = pool.take();
    assert_eq!((*c, *d), (2, 1));
}

#[test]
fn a_pool_of_one_serves_its_item_again_and_again() {
    let pool = Pool::new(vec![String::from("x")]);
    for n in 0..10 {
        let mut item = pool.take();
        assert_eq!(item.len(), n + 1);
        item.push('x');
    }
}

#[test]
fn a_handle_reads_and_writes_its_item() {
    let pool = Pool::new(vec![vec![1u8, 2], vec![3]]);
    let mut first = pool.take();
    assert_eq!(first.len(), 2);
    assert_eq!(first[1], 2);
    first.push(9);
    first[0] = 7;
    assert_eq!(*first, vec![7, 2, 9]);
    let second = pool.take();
    assert_eq!(*second, vec![3]);
}

#[test]
fn a_pool_may_be_built_with_no_item() {
    let pool: Pool<u8> = Pool::new(Vec::new());
    drop(pool);
}

#[test]
fn handles_of_two_pools_go_back_to_their_own() {
    let left = Pool::new(vec![1]);
    let right = Pool::new(vec![2]);
    let mut a = left.take();
    let mut b = right.take();
    std::mem::swap(&mut *a, &mut *b);
    drop(a);
    drop(b);
    assert_eq!(*left.take(), 2);
    assert_eq!(*right.take(), 1);
}

fn shared_between_threads<S: Send + Sync>(_: &S) {}

fn sent_to_a_thread<S: Send>(_: &S) {}

#[test]
fn a_pool_of_items_that_may_change_threads_may_be_shared() {
    let pool = Pool::new(vec![String::from("a"), String::from("b")]);
    shared_between_threads(&pool);
    let handle = pool.take();
    sent_to_a_thread(&handle);
    assert_eq!(*handle, "a");
}
