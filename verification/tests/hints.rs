use dirtyqueue::cbor::read_numbers;
use dirtyqueue::hint::hint_from_decoded;
use dirtyqueue::{hash_filename, take_hint, DirtyQueue, Hints, QueueDimension};

fn hints(head: usize, tail: usize) -> Hints {
    Hints::new("/q".to_string(), head, tail)
}

fn bytes_of(head: usize, tail: usize) -> Vec<u8> {
    let step = hints(head, tail).write_hints(QueueDimension::Closing, 0);
    step.write.unwrap().bytes
}

#[test]
fn a_moved_tail_is_written_out() {
    let mut h = hints(3, 4);
    let step = h.write_hints(QueueDimension::Tail(5), 501);
    assert!(!step.closing);
    let file = step.write.unwrap();
    assert_eq!(file.temp, "/q/hint.tail.5.tmp");
    assert_eq!(file.target, "/q/hint");
    assert_eq!(file.data, vec![3, 5]);
    assert_eq!(file.bytes, vec![0x82, 3, 5]);
}

#[test]
fn a_moved_head_is_written_out() {
    let mut h = hints(3, 4);
    let step = h.write_hints(QueueDimension::Head(1000), 501);
    assert!(!step.closing);
    let file = step.write.unwrap();
    assert_eq!(file.temp, "/q/hint.head.1000.tmp");
    assert_eq!(file.target, "/q/hint");
    assert_eq!(file.data, vec![1000, 4]);
    assert_eq!(file.bytes, vec![0x82, 0x19, 0x03, 0xe8, 4]);
}

#[test]
fn a_closing_queue_is_always_written_out() {
    let mut h = hints(23, 24);
    let step = h.write_hints(QueueDimension::Closing, 0);
    assert!(step.closing);
    let file = step.write.unwrap();
    assert_eq!(file.temp, "/q/hint.23.24.tmp");
    assert_eq!(file.target, "/q/hint");
    assert_eq!(file.data, vec![23, 24]);
    assert_eq!(file.bytes, vec![0x82, 23, 0x18, 24]);
}

#[test]
fn a_fresh_hint_is_left_alone() {
    let mut h = hints(0, 0);
    assert!(h.write_hints(QueueDimension::Tail(1), 500).write.is_none());
    assert!(h.write_hints(QueueDimension::Tail(2), 0).write.is_none());
    assert!(h.write_hints(QueueDimension::Head(1), 499).write.is_none());
    let file = h.write_hints(QueueDimension::Tail(3), 501).write.unwrap();
    assert_eq!(file.data, vec![1, 3]);
}

#[test]
fn what_was_not_written_can_be_flushed() {
    let mut h = hints(7, 8);
    assert!(!h.is_pending());
    assert!(h.flush().is_none());

    assert!(h.write_hints(QueueDimension::Tail(9), 0).write.is_none());
    assert!(h.is_pending());
    let file = h.flush().unwrap();
    assert_eq!(file.temp, "/q/hint.7.9.tmp");
    assert_eq!(file.target, "/q/hint");
    assert_eq!(file.data, vec![7, 9]);
    assert_eq!(file.bytes, vec![0x82, 7, 9]);
    assert!(!h.is_pending());
    assert!(h.flush().is_none());

    assert!(h.write_hints(QueueDimension::Head(8), 0).write.is_none());
    assert!(h.write_hints(QueueDimension::Tail(10), 501).write.is_some());
    assert!(h.flush().is_none());

    assert!(h.write_hints(QueueDimension::Head(9), 0).write.is_none());
    let file = h.write_hints(QueueDimension::Closing, 0).write.unwrap();
    assert_eq!(file.data, vec![9, 10]);
    assert!(h.flush().is_none());
}

#[test]
fn the_last_announcements_count() {
    let mut h = hints(7, 8);
    h.write_hints(QueueDimension::Tail(9), 0);
    let file = h.write_hints(QueueDimension::Closing, 0).write.unwrap();
    assert_eq!(file.data, vec![7, 9]);

    let mut h = hints(7, 8);
    for key in 0..20 {
        h.write_hints(QueueDimension::Tail(key), 0);
        h.write_hints(QueueDimension::Head(key / 2), 0);
    }
    let file = h.write_hints(QueueDimension::Closing, 0).write.unwrap();
    assert_eq!(file.data, vec![9, 19]);
}

#[test]
fn without_a_hint_a_queue_starts_at_zero() {
    assert_eq!(take_hint(None).unwrap(), Some((0, 0)));
    let queue = DirtyQueue::new("/q".to_string(), None).unwrap().unwrap();
    assert_eq!(queue.head().unwrap(), 0);
    assert_eq!(queue.tail().unwrap(), 0);
}

#[test]
fn a_hint_is_read_back() {
    for head in [0, 1, 23, 24, 255, 256, 65535, 65536, usize::MAX - 1, usize::MAX] {
        for tail in [0, 23, 24, 255, 256, 65535, 65536, usize::MAX] {
            let bytes = bytes_of(head, tail);
            assert_eq!(take_hint(Some(bytes.clone())).unwrap(), Some((head, tail)));
            let queue = DirtyQueue::new("/q".to_string(), Some(bytes)).unwrap().unwrap();
            assert_eq!(queue.head().unwrap(), head);
            assert_eq!(queue.tail().unwrap(), tail);
        }
    }
}

#[test]
fn what_stands_behind_a_hint_does_not_matter() {
    let mut bytes = bytes_of(5, 600);
    bytes.push(0xff);
    bytes.push(0x82);
    assert_eq!(take_hint(Some(bytes)).unwrap(), Some((5, 600)));
}

#[test]
fn large_numbers_take_eight_bytes() {
    assert_eq!(bytes_of(65536, 1), vec![0x82, 0x1a, 0, 1, 0, 0, 1]);
    if usize::MAX as u64 == u64::MAX {
        assert_eq!(
            bytes_of(usize::MAX, 1),
            vec![0x82, 0x1b, 255, 255, 255, 255, 255, 255, 255, 255, 1]
        );
    }
}

#[test]
fn a_hint_that_is_no_run_of_numbers_is_an_error() {
    assert!(take_hint(Some(vec![])).is_err());
    assert!(take_hint(Some(vec![0x82, 1])).is_err());
    assert!(take_hint(Some(vec![0x82, 1, 0x20])).is_err());
    assert!(take_hint(Some(vec![0x05])).is_err());
    assert!(DirtyQueue::new("/q".to_string(), Some(vec![0x05])).is_err());
}

#[test]
fn the_error_tells_its_cause() {
    let e = take_hint(Some(vec![0x1c])).unwrap_err();
    assert_eq!(format!("{:?}", e), "Error(\"Syntax(0)\")");
    let e = take_hint(Some(vec![0x82, 1, 0x1c])).unwrap_err();
    assert_eq!(format!("{:?}", e), "Error(\"Syntax(2)\")");
    let cause = ciborium::de::Error::Syntax(7);
    let e = hint_from_decoded(Err(cause)).unwrap_err();
    assert_eq!(format!("{:?}", e), "Error(\"Syntax(7)\")");
}

#[test]
fn decoded_numbers_tell_the_head_and_the_tail() {
    assert_eq!(hint_from_decoded(Ok(vec![4, 9])).unwrap(), Some((4, 9)));
    assert_eq!(hint_from_decoded(Ok(vec![4, 9, 1])).unwrap(), Some((4, 9)));
    assert_eq!(hint_from_decoded(Ok(vec![4])).unwrap(), None);
    assert_eq!(hint_from_decoded(Ok(vec![])).unwrap(), None);
    assert_eq!(read_numbers(&vec![0x83, 4, 0x18, 99, 1]).unwrap(), vec![4, 99, 1]);
    assert!(read_numbers(&vec![0x83, 4]).is_err());
}

#[test]
fn fewer_than_two_numbers_tell_nothing() {
    assert_eq!(take_hint(Some(vec![0x80])).unwrap(), None);
    assert_eq!(take_hint(Some(vec![0x81, 1])).unwrap(), None);
    assert!(DirtyQueue::new("/q".to_string(), Some(vec![0x80])).unwrap().is_none());
}

#[test]
fn further_numbers_are_passed_over() {
    assert_eq!(take_hint(Some(vec![0x83, 1, 2, 3])).unwrap(), Some((1, 2)));
}

#[test]
fn hints_and_objects_do_not_meet() {
    let mut h = hints(12, 34);
    let file = h.write_hints(QueueDimension::Head(12), 501).write.unwrap();
    for levels in [0, 1, 2] {
        for key in 0..200 {
            let path = hash_filename("/q", key, levels);
            assert_ne!(path, file.temp);
            assert_ne!(path, file.target);
        }
    }
    assert_ne!(file.temp, file.target);
}

#[test]
fn hints_start_where_the_queue_is() {
    let queue = DirtyQueue::resume("/q".to_string(), 6, 9);
    let file = queue.hints().write_hints(QueueDimension::Closing, 0).write.unwrap();
    assert_eq!(file.data, vec![6, 9]);
}
