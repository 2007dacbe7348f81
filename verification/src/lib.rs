//! Environment management for a desktop launcher that runs Python
//! applications through `uv`.
//!
//! The crate holds the decisions: which directories an application owns, which
//! interpreter is the newest, how a profile's `pip_args` become a `uv` command
//! line, what every step of an installation leads to. Reading directories,
//! starting processes and showing output is left to the caller, who reports
//! back what it found.

pub mod command;
pub mod command_text;
pub mod decode;
pub mod error;
pub mod install;
pub mod path;
pub mod pip_args;
pub mod python_env;
pub mod text;
pub mod uv;
pub mod version;
