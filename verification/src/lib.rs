//! Content-based identification of compression/archive formats and
//! format-specific packing/unpacking of in-memory file trees, with every
//! extracted entry path checked against directory-traversal escapes.

pub mod contents;
pub mod errors;
pub mod modules;
pub mod utils;
