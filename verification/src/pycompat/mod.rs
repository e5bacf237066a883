//! Python standard-library behaviour the engine relies on: codecs, path
//! manipulation and shell-style pattern matching.

pub mod unicode_escape;
pub mod fnmatch;
pub mod path;
pub mod csv;
pub mod xml;
pub mod double;
pub mod keyed_sort;
pub mod json_dump;
