//! Patching of generated Django settings modules, and the small decisions
//! a project generator makes around it.

pub mod config;
pub mod dict;
pub mod dict_laws;
pub mod errors;
pub mod list_laws;
pub mod literal;
pub mod mapping_laws;
pub mod options;
pub mod pattern;
pub mod project;
pub mod python;
pub mod settings;
pub mod setup;
pub mod text;
pub mod text_laws;
pub mod tools;
