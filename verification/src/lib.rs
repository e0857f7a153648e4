//! Completion-based file I/O on top of `io_uring`: the decisions of the
//! library (which request a completion belongs to, how a completion becomes
//! a result, which registered buffer is free, which submission a call makes)
//! stated as contracts and proved.

pub mod complete;
pub mod driver;
pub mod error;
pub mod fs;
pub mod op;
mod sys;
pub mod io;

pub use error::Error;
