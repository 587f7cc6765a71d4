//! Coordination logic of a gallery crawler: what to request next, what a page
//! holds, where an image goes and how many downloads may run at once.
//!
//! Nothing here performs I/O. Every component is a function from what the
//! caller has observed (a response body, a header, a completed operation) to
//! what the caller must do next.

pub mod ban;
pub mod detail;
pub mod download;
pub mod gallery;
pub mod listing;
pub mod markup;
pub mod pace;
pub mod resolve;
pub mod run;
pub mod schedule;
pub mod target;
pub mod text;
pub mod traversal;
