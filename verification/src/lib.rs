//! A personal command-alias manager: a registry binding short names to
//! shell-command templates, positional-placeholder substitution of caller
//! arguments into a template, and construction of the shell invocation that
//! runs the resolved command line.

pub mod config;
pub mod engine;
pub mod mapping;
pub mod shell;
pub mod substitution;
pub mod text;

pub use config::ZenConfig;
pub use engine::Zen;
pub use text::str_eq;
