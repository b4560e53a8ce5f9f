//! Generation of type descriptions for other languages, and the parsing of
//! FlatBuffers schemas.

pub mod arktype;
pub mod config;
pub mod doc_comment;
pub mod effect;
pub mod file_grouping;
pub mod flatbuffers;
pub mod flatbuffers_parser;
pub mod import_resolver;
pub mod macroforge;
pub mod output;
pub mod plugin_types;
