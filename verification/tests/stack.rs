use lists::List;

#[test]
fn basics() {
    let mut list = List::new();

    assert_eq!(list.pop(), None);

    list.push(1);
    list.push(2);
    list.push(3);

    assert_eq!(list.pop(), Some(3));
    assert_eq!(list.pop(), Some(2));

    list.push(4);
    list.push(5);

    assert_eq!(list.pop(), Some(5));
    assert_eq!(list.pop(), Some(4));

    // Check exhaustion
    assert_eq!(list.pop(), Some(1));
    assert_eq!(list.pop(), None);
}

#[test]
fn pop_on_fresh_stack_is_none() {
    let mut list = List::new();
    assert_eq!(list.pop(), None);
    assert_eq!(list.pop(), None);
}

#[test]
fn pop_after_drain_is_none() {
    let mut list = List::new();
    list.push(10);
    list.push(20);
    assert_eq!(list.pop(), Some(20));
    assert_eq!(list.pop(), Some(10));
    assert_eq!(list.pop(), None);
    assert_eq!(list.pop(), None);
}

#[test]
fn pops_come_out_in_reverse_push_order() {
    let mut list = List::new();
    let pushed: Vec<i32> = vec![4, 8, 15, 16, 23, 42];
    for v in &pushed {
        list.push(*v);
    }
    let mut popped: Vec<i32> = Vec::new();
    while let Some(v) = list.pop() {
        popped.push(v);
    }
    let mut reversed: Vec<i32> = pushed.clone();
    reversed.reverse();
    assert_eq!(popped, reversed);
}

#[test]
fn drained_stack_behaves_like_fresh() {
    let mut drained = List::new();
    for v in 1i32..=50 {
        drained.push(v);
    }
    for v in (1i32..=50).rev() {
        assert_eq!(drained.pop(), Some(v));
    }

    let mut fresh = List::new();
    assert_eq!(drained.pop(), fresh.pop());
    drained.push(7);
    fresh.push(7);
    assert_eq!(drained.pop(), fresh.pop());
    assert_eq!(drained.pop(), fresh.pop());
}

#[test]
fn no_value_duplicated_or_lost() {
    let mut list = List::new();
    let pushed: Vec<i32> = vec![5, -1, 5, 3, 0, 3, 5];
    for v in &pushed {
        list.push(*v);
    }
    let mut popped: Vec<i32> = Vec::new();
    while let Some(v) = list.pop() {
        popped.push(v);
    }
    let mut pushed_sorted: Vec<i32> = pushed.clone();
    pushed_sorted.sort();
    popped.sort();
    assert_eq!(popped, pushed_sorted);
}

#[test]
fn teardown_of_long_chain_does_not_overflow() {
    let mut list = List::new();
    for v in 0i32..100_000 {
        list.push(v);
    }
    drop(list);
}
