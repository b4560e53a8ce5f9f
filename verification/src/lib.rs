//! Type descriptions for generated schemas: FlatBuffers schema parsing and
//! generation, validator notation, and the shared type model.

pub mod case;
pub mod config;
pub mod named_map;
pub mod number;
pub mod paths;
pub mod text;
pub mod tooling;
pub mod traits;
pub mod types;
pub mod typesync;
pub mod validator;
