//! Resolution of the shared-library dependency closure of a native binary.
//!
//! Given a built executable or library, the resolver finds every shared
//! library it imports, directly or through other libraries, that the
//! operating system does not provide, locates a copy whose binary format
//! matches the root binary's, and copies it beside the binary.
//!
//! - `inspect` reads the binary inspector's output: import names and format tags.
//! - `classify` decides what is to be done about one imported name.
//! - `config` holds the run options and derives the ordered search directories.
//! - `search` picks the first acceptable candidate in search order.
//! - `resolver` is the state machine that drives the whole closure.
//! - `text` holds the character-level string operations they share.
pub mod classify;
pub mod config;
pub mod inspect;
pub mod resolver;
pub mod search;
pub mod text;
