pub mod calls;
pub mod cbor;
pub mod counter;
pub mod decimal;
pub mod error;
pub mod hint;
pub mod keyed;
pub mod laws;
pub mod path;
pub mod queue;
pub mod runs;

pub use counter::{advance, next_with_overflow};
pub use error::Error;
pub use hint::{take_hint, HintFile, HintStep, Hints, QueueDimension, HINT_FILE};
pub use keyed::Keyed;
pub use path::{hash_filename, DIRECTORY_HASH_LEVELS};
pub use queue::{Announce, DirtyQueue, Finish, Push, Removal, Shift};
