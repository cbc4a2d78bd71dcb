//! Structured metadata for scene-release names: the record a name is parsed
//! into, the rules that make such a record well formed, the composition of a
//! path's leaf and parent directory, and the flat key/value form in which a
//! record is handed to a host runtime.

pub mod types;
pub mod assemble;
pub mod path;
pub mod season;
pub mod encode;
