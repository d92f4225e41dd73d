//! A small application scaffold: a hierarchical configuration store with
//! dotted-key access and deep merge, format readers chosen by file suffix,
//! candidate configuration paths built from search paths and profiles, and a
//! few supporting value types.

pub mod text;
pub mod value;
pub mod error;
pub mod accessor;
pub mod reader;
pub mod toml_syntax;
pub mod toml_reader;
pub mod registry;
pub mod env;
pub mod paths;
pub mod builder;
pub mod http;
pub mod app;
pub mod primitive;
pub mod converter;
pub mod clock;
