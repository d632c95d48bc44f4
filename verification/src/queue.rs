//! The queue: which number an object gets, which file it lies in, and what the queue announces.
//!
//! Every operation draws its number first. What is then written, read or removed, and whether
//! that worked, is handed back to the value that the operation returned, which says how to go on.
use vstd::prelude::*;

use crate::counter::advance;
use crate::error::Error;
use crate::hint::{take_hint, Hints, QueueDimension};
use crate::keyed::Keyed;
use crate::path::hash_filename;

verus! {

/// The state of a queue.
pub struct QueueView {
    pub root: Seq<char>,
    pub head: usize,
    pub tail: usize,
}

impl QueueView {
    /// The state after an object was put in: the tail moved one step.
    pub open spec fn pushed(self) -> QueueView {
        QueueView { tail: crate::counter::next_key(self.tail), ..self }
    }

    /// The state after an object was taken out: the head moved one step.
    pub open spec fn shifted(self) -> QueueView {
        QueueView { head: crate::counter::next_key(self.head), ..self }
    }

    /// The path of the file of the object that is numbered `key`.
    pub open spec fn path(self, key: usize, levels: usize) -> Seq<char> {
        crate::path::hash_path(self.root, key, levels)
    }

    /// How far the head and the tail are apart. Where the tail shows the smaller number, either
    /// it has started over ahead of the head or the head has run past it: the shorter way between
    /// the two tells which.
    pub open spec fn size(self) -> usize {
        if self.head <= self.tail {
            (self.tail - self.head) as usize
        } else if usize::MAX - self.head + 1 + self.tail <= self.head - self.tail {
            (usize::MAX - self.head + 1 + self.tail) as usize
        } else {
            (self.head - self.tail) as usize
        }
    }
}

/// A queue whose objects lie in files beneath a root directory. The head is the number of the
/// object that was taken out last, the tail that of the object that was put in last.
pub struct DirtyQueue {
    root: String,
    head: usize,
    tail: usize,
}

impl View for DirtyQueue {
    type V = QueueView;

    closed spec fn view(&self) -> QueueView {
        QueueView { root: self.root@, head: self.head, tail: self.tail }
    }
}

/// Whether `r` is a queue beneath `root` with this head and this tail.
pub open spec fn opened(
    r: Result<Option<DirtyQueue>, Error>,
    root: Seq<char>,
    head: usize,
    tail: usize,
) -> bool {
    r matches Ok(Some(queue)) && queue@ == (QueueView { root, head, tail })
}

/// An object on its way into the queue.
pub struct Push<T> {
    /// The number that it got.
    pub key: usize,
    /// The file to write it to.
    pub path: String,
    /// The object, which carries its number.
    pub obj: T,
}

/// An object on its way out of the queue.
pub struct Shift {
    /// Its number.
    pub key: usize,
    /// The file to read it from.
    pub path: String,
}

/// An operation that is done but for its announcement.
pub struct Announce<R> {
    /// What to announce.
    pub dimension: QueueDimension,
    /// What the operation comes to.
    pub result: R,
}

/// An object that is done with.
pub enum Finish<T> {
    /// It has no file.
    Done(T),
    /// Its file is to be removed.
    Remove(Removal<T>),
}

/// An object whose file is to be removed.
pub struct Removal<T> {
    /// The file to remove.
    pub path: String,
    /// The object.
    pub obj: T,
}

/// Whether `finish` is how `obj` is done with: an object that was given a number has the file of
/// that number removed, and any other has none.
pub open spec fn finishes<T: Keyed>(
    queue: QueueView,
    obj: T,
    levels: usize,
    finish: Finish<T>,
) -> bool {
    match finish {
        Finish::Done(same) => !obj.spec_initialized() && same == obj,
        Finish::Remove(removal) => {
            &&& obj.spec_initialized()
            &&& removal.obj == obj
            &&& removal.path@ == queue.path(obj.spec_key(), levels)
        },
    }
}

impl DirtyQueue {
    /// Opens the queue beneath `path`, given what its hint file holds, if there is one. A hint
    /// that cannot be read is an error; one from which no head and tail can be told gives no
    /// queue.
    pub fn new(path: String, hint: Option<Vec<u8>>) -> (r: Result<Option<Self>, Error>)
        ensures
            hint is None ==> opened(r, path@, 0, 0),
            hint matches Some(bytes) ==> match crate::cbor::decoded_numbers(
                bytes@,
                usize::MAX as nat,
            ) {
                Some(numbers) => match crate::hint::hint_of(numbers) {
                    Some((head, tail)) => opened(r, path@, head, tail),
                    None => r == Ok::<Option<Self>, Error>(None),
                },
                None => r is Err,
            },
            r matches Err(e) ==> hint matches Some(bytes) && crate::hint::is_read_failure(bytes, e),
            hint matches Some(bytes) ==> forall|state: crate::hint::HintsView|
                #![trigger state.bytes()]
                state.bytes().is_prefix_of(bytes@) ==> opened(r, path@, state.head, state.tail),
    {
        match take_hint(hint) {
            Ok(Some((head, tail))) => Ok(Some(Self::resume(path, head, tail))),
            Ok(None) => Ok(None),
            Err(e) => Err(e),
        }
    }

    /// The queue beneath `path` with this head and this tail.
    pub fn resume(path: String, head: usize, tail: usize) -> (r: Self)
        ensures
            r@ == (QueueView { root: path@, head, tail }),
    {
        DirtyQueue { root: path, head, tail }
    }

    /// A writer of hints that knows the head and the tail of this queue.
    pub fn hints(&self) -> (r: Hints)
        ensures
            r@ == (crate::hint::HintsView {
                root: self@.root,
                head: self@.head,
                tail: self@.tail,
                pending: false,
            }),
    {
        Hints::new(self.root.clone(), self.head, self.tail)
    }

    /// The number of the object that was taken out last.
    pub fn head(&self) -> (r: Result<usize, Error>)
        ensures
            r == Ok::<usize, Error>(self@.head),
    {
        Ok(self.head)
    }

    /// The number of the object that was put in last.
    pub fn tail(&self) -> (r: Result<usize, Error>)
        ensures
            r == Ok::<usize, Error>(self@.tail),
    {
        Ok(self.tail)
    }

    /// Moves the head one step and returns it.
    pub fn advance_head(&mut self) -> (r: Result<usize, Error>)
        ensures
            final(self)@ == old(self)@.shifted(),
            r == Ok::<usize, Error>(final(self)@.head),
    {
        advance(&mut self.head)
    }

    /// Moves the tail one step and returns it.
    pub fn advance_tail(&mut self) -> (r: Result<usize, Error>)
        ensures
            final(self)@ == old(self)@.pushed(),
            r == Ok::<usize, Error>(final(self)@.tail),
    {
        advance(&mut self.tail)
    }

    /// How far the head and the tail are apart, whether or not the tail has started over.
    pub fn queue_size(&self) -> (r: Result<usize, Error>)
        ensures
            r == Ok::<usize, Error>(self@.size()),
    {
        let tail = self.tail()?;
        let head = self.head()?;
        if head <= tail {
            return Ok(tail - head);
        }
        let past = head - tail;
        let ahead = usize::MAX - past + 1;
        if ahead <= past {
            Ok(ahead)
        } else {
            Ok(past)
        }
    }

    /// Numbers `obj` and finds its file, `levels` directories beneath the root. The number is
    /// used up whatever becomes of the file.
    pub fn push<T: Keyed>(&mut self, obj: T, levels: usize) -> (r: Result<Push<T>, Error>)
        ensures
            final(self)@ == old(self)@.pushed(),
            r matches Ok(push) && {
                &&& push.key == final(self)@.tail
                &&& push.path@ == final(self)@.path(push.key, levels)
                &&& push.obj == obj.with_key(push.key)
                &&& push.obj.spec_key() == push.key
                &&& push.obj.spec_initialized()
            },
    {
        let idx = self.advance_tail()?;
        let mut obj = obj;
        obj.set_key(idx);
        let path = hash_filename(self.root.as_str(), idx, levels);
        Ok(Push { key: idx, path, obj })
    }

    /// Finds the file of the next object, `levels` directories beneath the root. The number is
    /// used up whether there is such a file or not.
    pub fn shift(&mut self, levels: usize) -> (r: Result<Shift, Error>)
        ensures
            final(self)@ == old(self)@.shifted(),
            r matches Ok(shift) && {
                &&& shift.key == final(self)@.head
                &&& shift.path@ == final(self)@.path(shift.key, levels)
            },
    {
        let idx = self.advance_head()?;
        let path = hash_filename(self.root.as_str(), idx, levels);
        Ok(Shift { key: idx, path })
    }

    /// Finds the file to remove now that `obj` is done with. An object that was never given a
    /// number has none.
    pub fn finished<T: Keyed>(&self, obj: T, levels: usize) -> (r: Finish<T>)
        ensures
            finishes(self@, obj, levels, r),
    {
        if !obj.initialized() {
            return Finish::Done(obj);
        }
        let path = hash_filename(self.root.as_str(), obj.key(), levels);
        Finish::Remove(Removal { path, obj })
    }

    /// Finds the file to remove now that what a shift came to is done with, if it came to an
    /// object.
    pub fn shift_finished<T: Keyed>(&self, shifted: Result<T, Error>, levels: usize) -> (r: Result<
        Finish<T>,
        Error,
    >)
        ensures
            match shifted {
                Ok(obj) => r matches Ok(finish) && finishes(self@, obj, levels, finish),
                Err(e) => r == Err::<Finish<T>, Error>(e),
            },
    {
        match shifted {
            Ok(obj) => Ok(self.finished(obj, levels)),
            Err(e) => Err(e),
        }
    }
}

impl<T> Push<T> {
    /// Goes on once the file was to be written: the tail is to be announced, if that worked.
    pub fn written(self, outcome: Result<(), Error>) -> (r: Result<Announce<usize>, Error>)
        ensures
            r == match outcome {
                Ok(_) => Ok::<Announce<usize>, Error>(
                    Announce { dimension: QueueDimension::Tail(self.key), result: self.key },
                ),
                Err(e) => Err(e),
            },
    {
        match outcome {
            Ok(_) => Ok(Announce { dimension: QueueDimension::Tail(self.key), result: self.key }),
            Err(e) => Err(e),
        }
    }
}

impl Shift {
    /// Goes on once the file was to be read: the object gets its number and the head is to be
    /// announced, if that worked.
    pub fn read<T: Keyed>(self, outcome: Result<T, Error>) -> (r: Result<Announce<T>, Error>)
        ensures
            r == match outcome {
                Ok(obj) => Ok::<Announce<T>, Error>(
                    Announce {
                        dimension: QueueDimension::Head(self.key),
                        result: obj.with_key(self.key),
                    },
                ),
                Err(e) => Err(e),
            },
            r matches Ok(announce) ==> {
                &&& announce.result.spec_key() == self.key
                &&& announce.result.spec_initialized()
            },
    {
        match outcome {
            Ok(mut obj) => {
                obj.set_key(self.key);
                Ok(Announce { dimension: QueueDimension::Head(self.key), result: obj })
            },
            Err(e) => Err(e),
        }
    }
}

impl<R> Announce<R> {
    /// What the operation comes to, given whether it was announced.
    pub fn announced(self, outcome: Result<(), Error>) -> (r: Result<R, Error>)
        ensures
            r == match outcome {
                Ok(_) => Ok::<R, Error>(self.result),
                Err(e) => Err(e),
            },
    {
        match outcome {
            Ok(_) => Ok(self.result),
            Err(e) => Err(e),
        }
    }
}

impl<T> Removal<T> {
    /// What finishing the object comes to, given whether its file was removed.
    pub fn removed(self, outcome: Result<(), Error>) -> (r: Result<T, Error>)
        ensures
            r == match outcome {
                Ok(_) => Ok::<T, Error>(self.obj),
                Err(e) => Err(e),
            },
    {
        match outcome {
            Ok(_) => Ok(self.obj),
            Err(e) => Err(e),
        }
    }
}

} // verus!
