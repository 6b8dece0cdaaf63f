//! Retry a command until it succeeds or a retry limit is exhausted.
//!
//! The library has two halves: parsing a raw command line into an
//! executable root and its arguments (`executions`), and the retry
//! policy that decides, after each attempt, whether to try again or
//! give up (`policy`). Spawning the child process and streaming its
//! output are left to the binary around the library.

pub mod executions;
pub mod policy;
