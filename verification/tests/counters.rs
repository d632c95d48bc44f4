use dirtyqueue::{advance, next_with_overflow, DirtyQueue, Error};

#[test]
fn the_largest_number_is_followed_by_zero() {
    assert_eq!(next_with_overflow(0), 1);
    assert_eq!(next_with_overflow(41), 42);
    assert_eq!(next_with_overflow(usize::MAX - 1), usize::MAX);
    assert_eq!(next_with_overflow(usize::MAX), 0);
}

#[test]
fn advancing_moves_the_counter() {
    let mut u = usize::MAX - 1;
    assert_eq!(advance(&mut u).unwrap(), usize::MAX);
    assert_eq!(u, usize::MAX);
    assert_eq!(advance(&mut u).unwrap(), 0);
    assert_eq!(advance(&mut u).unwrap(), 1);
    assert_eq!(u, 1);
}

#[test]
fn numbers_do_not_repeat() {
    let mut u = usize::MAX - 500;
    let mut seen: Vec<usize> = Vec::new();
    for _ in 0..1000 {
        seen.push(advance(&mut u).unwrap());
    }
    seen.sort();
    seen.dedup();
    assert_eq!(seen.len(), 1000);
}

#[test]
fn head_and_tail_move_apart() {
    let mut queue = DirtyQueue::resume("/q".to_string(), 3, 9);
    assert_eq!(queue.queue_size().unwrap(), 6);
    assert_eq!(queue.advance_tail().unwrap(), 10);
    assert_eq!(queue.advance_head().unwrap(), 4);
    assert_eq!(queue.advance_head().unwrap(), 5);
    assert_eq!(queue.head().unwrap(), 5);
    assert_eq!(queue.tail().unwrap(), 10);
    assert_eq!(queue.queue_size().unwrap(), 5);
}

#[test]
fn the_size_is_how_far_the_counters_are_apart() {
    let size = |head: usize, tail: usize| {
        DirtyQueue::resume("/q".to_string(), head, tail).queue_size().unwrap()
    };
    assert_eq!(size(7, 7), 0);
    assert_eq!(size(0, usize::MAX), usize::MAX);
    assert_eq!(size(8, 7), 1);
    assert_eq!(size(1, 0), 1);
}

#[test]
fn the_size_is_right_across_the_wrap() {
    let size = |head: usize, tail: usize| {
        DirtyQueue::resume("/q".to_string(), head, tail).queue_size().unwrap()
    };
    assert_eq!(size(usize::MAX, 0), 1);
    assert_eq!(size(usize::MAX, 99), 100);
    assert_eq!(size(usize::MAX - 9, 9), 19);
    let half = usize::MAX / 2 + 1;
    assert_eq!(size(half, 0), half);
    assert_eq!(size(half + 1, 0), half - 1);
    assert_eq!(size(half - 1, 0), half - 1);
}

#[test]
fn errors_carry_the_text_of_their_cause() {
    let e = Error::from("no such file");
    assert_eq!(format!("{:?}", e), "Error(\"no such file\")");
    assert_eq!(format!("{:?}", Error::from(17)), "Error(\"17\")");
    assert_eq!(format!("{:?}", e.clone()), format!("{:?}", e));
}
