//! Transparent compressed I/O through external utilities.
//!
//! The crate holds the decisions behind a compressed reader or writer: which
//! format a stream is in, which installed utility is the best one for it, how
//! that utility is invoked, how a file name is adjusted, and in which order
//! the resources of a stream are released.  Opening files and starting
//! processes is left to the caller, who is handed a plan made of plain values.

pub mod async_compress;
pub mod compress;
pub mod compress_type;
pub mod error;
pub mod filter_spec;
pub mod known_tools;
pub mod path_utils;
pub mod text;
pub mod tool_key;
pub mod tools;
