//! Path validation and filename policy for save/load workflows.
//!
//! The library turns possibly-invalid path strings into directories that were
//! seen to exist on the filesystem at check time, normalizes and enforces
//! file extensions, and decides whether a save path may be claimed when the
//! target already exists.  Every decision is a verified function; the
//! filesystem itself and the human answering prompts are reached only through
//! narrow, documented trusted calls and caller-supplied ports.

pub mod csv;
pub mod filter;
pub mod names;
pub mod platform;
pub mod policy;
pub mod probe;
pub mod resolver;
pub mod text;
