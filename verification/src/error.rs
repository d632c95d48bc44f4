use std::sync::Arc;

use vstd::prelude::*;

verus! {

/// What went wrong, as text.
#[derive(Debug, Clone)]
pub struct Error(Arc<String>);

impl Error {
    /// The text that the error carries.
    pub closed spec fn message(self) -> String {
        *self.0
    }
}

/// Anything that can be shown can be carried as an error: the error holds the text that it is
/// shown as.
impl<T: core::fmt::Display> From<T> for Error {
    fn from(value: T) -> (r: Self)
        ensures
            vstd::string::to_string_from_display_ensures::<T>(&value, r.message()),
    {
        Self(Arc::new(value.to_string()))
    }
}

/// Two values of a type may be shown alike and one value may be shown in more than one way, so
/// the error is no function of the value: the contract of `from` itself relates the two.
impl<T: core::fmt::Display> vstd::std_specs::convert::FromSpecImpl<T> for Error {
    open spec fn obeys_from_spec() -> bool {
        false
    }

    open spec fn from_spec(value: T) -> Self {
        arbitrary()
    }
}

} // verus!
