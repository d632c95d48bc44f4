//! Objects that know their number.
use vstd::prelude::*;

verus! {

/// What a queue asks of the objects that go through it: that they can be given a number and tell
/// which one they were given. The number need not be stored along with the object.
///
/// The contracts bind whoever implements the trait. A verified implementation says what its
/// number is by giving the three spec functions bodies of its own.
pub trait Keyed: Sized {
    /// The number of the object.
    open spec fn spec_key(self) -> usize {
        arbitrary()
    }

    /// Whether the object was given a number.
    open spec fn spec_initialized(self) -> bool {
        arbitrary()
    }

    /// The object with its number replaced.
    open spec fn with_key(self, key: usize) -> Self {
        arbitrary()
    }

    /// The number of the object.
    fn key(&self) -> (key: usize)
        ensures
            key == self.spec_key(),
    ;

    /// Gives the object a number and returns the one that it had.
    fn set_key(&mut self, key: usize) -> (previous: usize)
        ensures
            previous == old(self).spec_key(),
            *final(self) == old(self).with_key(key),
            final(self).spec_key() == key,
            final(self).spec_initialized(),
    ;

    /// Whether the object was given a number.
    fn initialized(&self) -> (r: bool)
        ensures
            r == self.spec_initialized(),
    ;
}

} // verus!
