use std::collections::HashMap;

use dirtyqueue::{DirtyQueue, Error, Finish, Hints, Keyed, QueueDimension, DIRECTORY_HASH_LEVELS};

#[derive(Debug, Clone, Default)]
struct Thing {
    x: usize,
    key: Option<usize>,
}

impl Keyed for Thing {
    fn initialized(&self) -> bool {
        self.key.is_some()
    }

    fn key(&self) -> usize {
        self.key.unwrap_or_default()
    }

    fn set_key(&mut self, key: usize) -> usize {
        let old = self.key();
        self.key = Some(key);
        old
    }
}

fn thing(x: usize) -> Thing {
    Thing { x, key: None }
}

/// A queue whose files are kept in memory. What is stored of an object is its payload.
struct Store {
    queue: DirtyQueue,
    hints: Hints,
    listening: bool,
    idle: u128,
    files: HashMap<String, usize>,
    hint: Option<Vec<u8>>,
}

impl Store {
    fn open(files: HashMap<String, usize>, hint: Option<Vec<u8>>) -> Result<Store, Error> {
        let queue = DirtyQueue::new("/q".to_string(), hint.clone())?.expect("two numbers");
        let hints = queue.hints();
        Ok(Store { queue, hints, listening: true, idle: u128::MAX, files, hint })
    }

    fn fresh() -> Store {
        Store::open(HashMap::new(), None).unwrap()
    }

    fn announce(&mut self, dimension: QueueDimension) -> Result<(), Error> {
        if !self.listening {
            return Err(Error::from("nobody listens"));
        }
        let step = self.hints.write_hints(dimension, self.idle);
        if let Some(file) = step.write {
            assert_eq!(file.target, "/q/hint");
            assert!(file.temp.starts_with("/q/hint."));
            self.hint = Some(file.bytes);
        }
        self.listening = !step.closing;
        Ok(())
    }

    fn flush(&mut self) {
        if let Some(file) = self.hints.flush() {
            self.hint = Some(file.bytes);
        }
    }

    fn push(&mut self, obj: Thing) -> Result<usize, Error> {
        let push = self.queue.push(obj, DIRECTORY_HASH_LEVELS)?;
        assert_eq!(push.obj.key(), push.key);
        self.files.insert(push.path.clone(), push.obj.x);
        let announce = push.written(Ok(()))?;
        let sent = self.announce(announce.dimension.clone());
        announce.announced(sent)
    }

    fn shift(&mut self) -> Result<Thing, Error> {
        let shift = self.queue.shift(DIRECTORY_HASH_LEVELS)?;
        let found = match self.files.get(&shift.path) {
            Some(x) => Ok(thing(*x)),
            None => Err(Error::from("no such file")),
        };
        let announce = shift.read(found)?;
        let sent = self.announce(announce.dimension.clone());
        announce.announced(sent)
    }

    fn finished(&mut self, obj: Thing) -> Result<Thing, Error> {
        let finish = self.queue.finished(obj, DIRECTORY_HASH_LEVELS);
        self.remove(finish)
    }

    fn shift_finished(&mut self) -> Result<Thing, Error> {
        let shifted = self.shift();
        let finish = self.queue.shift_finished(shifted, DIRECTORY_HASH_LEVELS)?;
        self.remove(finish)
    }

    fn remove(&mut self, finish: Finish<Thing>) -> Result<Thing, Error> {
        match finish {
            Finish::Done(obj) => Ok(obj),
            Finish::Remove(removal) => {
                let outcome = match self.files.remove(&removal.path) {
                    Some(_) => Ok(()),
                    None => Err(Error::from("no such file")),
                };
                removal.removed(outcome)
            }
        }
    }

    fn close(mut self) -> (HashMap<String, usize>, Option<Vec<u8>>) {
        self.announce(QueueDimension::Closing).unwrap();
        (self.files, self.hint)
    }
}

#[test]
fn test_construction_big() {
    const SIZE: usize = 100000;

    let mut queue = Store::fresh();

    for x in 0..SIZE {
        let res = queue.push(Thing { x, ..Default::default() });

        assert!(res.is_ok(), "{} | {:?}", x, res);
    }

    for x in 0..SIZE {
        let res = queue.shift();
        assert!(res.is_ok(), "{} | {:?}", x, res);
        assert_eq!(res.unwrap().x, x, "{}", x);
    }

    let mut again = Store::open(queue.files.clone(), queue.hint.clone()).unwrap();
    assert_eq!(again.queue.queue_size().unwrap(), 0);
    assert!(again.shift().is_err());
    assert_eq!(queue.queue.queue_size().unwrap(), 0);
}

#[test]
fn test_construction_overflow() {
    let mut queue = Store::fresh();
    queue.queue = DirtyQueue::resume("/q".to_string(), usize::MAX, usize::MAX);

    for x in 0..100 {
        let res = queue.push(Thing { x, ..Default::default() });

        assert!(res.is_ok(), "{} | {:?}", x, res);
    }

    for x in 0..100 {
        let res = queue.shift();
        assert!(res.is_ok(), "{} | {:?}", x, res);
        assert_eq!(res.unwrap().x, x, "{}", x);
    }
}

#[test]
fn test_construction_use() {
    let mut queue = Store::fresh();

    for x in 0..100 {
        let res = queue.push(Thing { x, ..Default::default() });

        assert!(res.is_ok(), "{} | {:?}", x, res);
    }

    for x in 0..100 {
        let res = queue.shift();
        assert!(res.is_ok(), "{} | {:?}", x, res);
        assert_eq!(res.unwrap().x, x, "{}", x);
    }
}

#[test]
fn keys_start_at_one_and_stay_in_order() {
    let mut queue = Store::fresh();
    for x in 0..1000 {
        assert_eq!(queue.push(thing(x)).unwrap(), x + 1);
    }
    let mut count = 1;
    while let Ok(res) = queue.shift() {
        assert_eq!(res.key(), count);
        count += 1;
    }
    assert_eq!(count - 1, 1000);
}

#[test]
fn pushes_and_shifts_may_alternate() {
    let mut queue = Store::fresh();
    queue.queue = DirtyQueue::resume("/q".to_string(), usize::MAX - 1, usize::MAX - 1);
    let mut next = 0;
    for x in 0..50 {
        queue.push(thing(2 * x)).unwrap();
        queue.push(thing(2 * x + 1)).unwrap();
        assert_eq!(queue.shift().unwrap().x, next);
        next += 1;
    }
    while next < 100 {
        assert_eq!(queue.shift().unwrap().x, next);
        next += 1;
    }
}

#[test]
fn a_push_says_where_its_object_goes() {
    let mut queue = DirtyQueue::resume("/q".to_string(), 0, 8675308);
    let push = queue.push(thing(5), 1).unwrap();
    assert_eq!(push.key, 8675309);
    assert_eq!(push.path, "/q/86/8675309");
    assert_eq!(push.obj.x, 5);
    assert_eq!(push.obj.key, Some(8675309));
    assert_eq!(queue.tail().unwrap(), 8675309);
    assert_eq!(queue.head().unwrap(), 0);
    let announce = push.written(Ok(())).unwrap();
    assert!(matches!(announce.dimension, QueueDimension::Tail(8675309)));
    assert_eq!(announce.announced(Ok(())).unwrap(), 8675309);
}

#[test]
fn a_push_that_fails_uses_its_number_up() {
    let mut queue = DirtyQueue::resume("/q".to_string(), 0, 0);
    let push = queue.push(thing(5), 1).unwrap();
    let failed = push.written(Err(Error::from("disk full")));
    assert!(matches!(failed, Err(e) if format!("{:?}", e) == "Error(\"disk full\")"));
    assert_eq!(queue.tail().unwrap(), 1);

    let push = queue.push(thing(6), 1).unwrap();
    assert_eq!(push.key, 2);
    let announce = push.written(Ok(())).unwrap();
    let failed = announce.announced(Err(Error::from("nobody listens")));
    assert!(matches!(failed, Err(e) if format!("{:?}", e) == "Error(\"nobody listens\")"));
}

#[test]
fn a_shift_says_where_its_object_lies() {
    let mut queue = DirtyQueue::resume("/q".to_string(), 41, 99);
    let shift = queue.shift(2).unwrap();
    assert_eq!(shift.key, 42);
    assert_eq!(shift.path, "/q/42/00/42");
    assert_eq!(queue.head().unwrap(), 42);
    assert_eq!(queue.tail().unwrap(), 99);
    let announce = shift.read(Ok(thing(7))).unwrap();
    assert!(matches!(announce.dimension, QueueDimension::Head(42)));
    let obj = announce.announced(Ok(())).unwrap();
    assert_eq!(obj.x, 7);
    assert_eq!(obj.key, Some(42));
}

#[test]
fn a_shift_that_fails_uses_its_number_up() {
    let mut queue = Store::fresh();
    assert!(queue.shift().is_err());
    assert_eq!(queue.queue.head().unwrap(), 1);
    assert_eq!(queue.queue.queue_size().unwrap(), 1);

    let shift = queue.queue.shift(1).unwrap();
    let announce = shift.read(Ok(thing(7))).unwrap();
    assert!(announce.announced(Err(Error::from("nobody listens"))).is_err());
}

#[test]
fn finishing_removes_the_file_that_was_read() {
    let mut queue = Store::fresh();
    for x in 0..10 {
        queue.push(thing(x)).unwrap();
    }
    for x in 0..10 {
        let obj = queue.shift().unwrap();
        let obj = queue.finished(obj).unwrap();
        assert_eq!(obj.x, x);
        assert_eq!(queue.files.len(), 9 - x);
    }
}

#[test]
fn shifting_and_finishing_can_be_done_at_once() {
    let mut queue = Store::fresh();
    for x in 0..10 {
        queue.push(thing(x)).unwrap();
    }
    for x in 0..10 {
        let obj = queue.shift_finished().unwrap();
        assert_eq!(obj.x, x);
        assert_eq!(obj.key(), x + 1);
        assert_eq!(queue.files.len(), 9 - x);
    }
    let failed = queue.shift_finished();
    assert!(matches!(failed, Err(e) if format!("{:?}", e) == "Error(\"no such file\")"));
}

#[test]
fn finishing_twice_is_an_error() {
    let mut queue = Store::fresh();
    queue.push(thing(3)).unwrap();
    let obj = queue.shift().unwrap();
    let obj = queue.finished(obj).unwrap();
    assert!(queue.finished(obj).is_err());
}

#[test]
fn an_object_without_a_number_has_no_file() {
    let mut queue = Store::fresh();
    queue.push(thing(3)).unwrap();
    let obj = queue.finished(thing(9)).unwrap();
    assert_eq!(obj.x, 9);
    assert_eq!(queue.files.len(), 1);
}

#[test]
fn a_queue_goes_on_where_it_left_off() {
    let mut queue = Store::fresh();
    for x in 0..10 {
        queue.push(thing(x)).unwrap();
    }
    for x in 0..4 {
        assert_eq!(queue.shift().unwrap().x, x);
    }
    let (files, hint) = queue.close();

    let mut queue = Store::open(files, hint).unwrap();
    assert_eq!(queue.queue.head().unwrap(), 4);
    assert_eq!(queue.queue.tail().unwrap(), 10);
    assert_eq!(queue.shift().unwrap().x, 4);
    let (files, hint) = queue.close();

    let mut queue = Store::open(files, hint).unwrap();
    assert_eq!(queue.queue.tail().unwrap(), 10);
    assert_eq!(queue.push(thing(10)).unwrap(), 11);
    for x in 5..11 {
        assert_eq!(queue.shift().unwrap().x, x);
    }
    assert!(queue.shift().is_err());
}

#[test]
fn nothing_that_was_shifted_comes_back() {
    let mut queue = Store::fresh();
    queue.idle = 0;
    for x in 0..50 {
        queue.push(thing(x)).unwrap();
    }
    for x in 0..50 {
        assert_eq!(queue.shift().unwrap().x, x);
    }
    assert!(queue.hint.is_none());
    queue.flush();
    let mut again = Store::open(queue.files.clone(), queue.hint.clone()).unwrap();
    assert_eq!(again.queue.head().unwrap(), 50);
    assert_eq!(again.queue.tail().unwrap(), 50);
    assert!(again.shift().is_err());
}

#[test]
fn the_size_counts_across_the_wrap() {
    let mut queue = Store::fresh();
    queue.queue = DirtyQueue::resume("/q".to_string(), usize::MAX, usize::MAX);
    for x in 0..100 {
        queue.push(thing(x)).unwrap();
        assert_eq!(queue.queue.queue_size().unwrap(), x + 1);
    }
    for x in 0..100 {
        queue.shift().unwrap();
        assert_eq!(queue.queue.queue_size().unwrap(), 99 - x);
    }
}

#[test]
fn writes_may_land_in_any_order() {
    let mut queue = DirtyQueue::resume("/q".to_string(), 0, 0);
    let first = queue.push(thing(1), 1).unwrap();
    let second = queue.push(thing(2), 1).unwrap();
    let mut files: HashMap<String, usize> = HashMap::new();
    files.insert(second.path.clone(), second.obj.x);
    files.insert(first.path.clone(), first.obj.x);
    assert_eq!(files[&queue.shift(1).unwrap().path], 1);
    assert_eq!(files[&queue.shift(1).unwrap().path], 2);
}
