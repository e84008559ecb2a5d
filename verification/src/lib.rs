//! Garbage collection of the cargo home directory (`~/.cargo`): which cached
//! crates, git checkouts, unpacked sources and installed binaries are old
//! enough to go, and what their removal frees.
//!
//! The library decides; the caller reads the file system, hands the library
//! what it found as plain values, and performs the removals it is told to.

pub mod gc;
