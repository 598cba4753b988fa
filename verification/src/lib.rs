//! Management of a directory of symbolic links that put chosen executables on
//! the search path.
//!
//! The library decides; it touches nothing. `add`, `remove` and `prune` each
//! start a [`Run`], which names one thing at a time that it needs from the
//! system and takes the answer. Whoever drives a run does the work on the
//! file system.

pub mod directory;
pub mod error;
pub mod laws;
pub mod lookup;
pub mod path;
pub mod protocol;
pub mod run;

pub use crate::error::Error;
pub use crate::lookup::{bin_path, Lookup};
pub use crate::protocol::{Entry, Reply, Request};
pub use crate::run::{add, prune, remove, Run};
