//! The colourizers: one for each serialization format, and one for
//! structural debug text.

pub mod json;
pub mod structure;
pub mod yaml;
pub mod toml;
