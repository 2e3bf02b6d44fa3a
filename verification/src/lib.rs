//! Flow type declarations rendered from a model of Rust types, with the
//! naming, quoting, attribute and path rules that decide what is emitted.

pub mod strings;
pub mod utils;
pub mod inflection;
pub mod config;
pub mod meta;
pub mod attr;
pub mod serde_attr;
pub mod model;
pub mod render;
pub mod derive;
pub mod decl;
pub mod flow_type;
pub mod flow;
pub mod std_types;
pub mod paths;
pub mod ast;
pub mod parser;
pub mod export;
pub mod deps;
pub mod project;
pub mod provision;
pub mod laws;
