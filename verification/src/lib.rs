//! A handle-based, read-only file abstraction: open, read, seek, tell,
//! size and flush over an exclusively owned byte resource.

pub mod file;
