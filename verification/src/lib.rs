//! Keystroke injection into terminal input queues: the payload that is typed,
//! the outcome of typing it, and the protocol that types it byte by byte.

pub mod encoding;
pub mod error;
pub mod injector;
pub mod payload;
