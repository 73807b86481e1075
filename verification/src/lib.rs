//! A webhook-style adapter for renaming completed downloads.
//!
//! The library has two verified parts. The filename transform engine parses a
//! rename rule of the form `pattern@offset`, matches the pattern against the
//! current filename, and shifts the number captured by the pattern's first
//! group by the offset. The session orchestrator is a pure state machine that
//! drives the authenticate, fetch, transform, rename, de-authenticate sequence
//! and guarantees that an opened session is closed on every exit path.

pub mod error;
pub mod orchestrator;
pub mod numbers;
pub mod transform;
pub mod pattern;
pub mod text;
