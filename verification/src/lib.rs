//! Translation of shell command lines between operating-system families.
//!
//! The engine splits a pipeline on unquoted `|` characters, matches each
//! segment against an ordered knowledge base of command records, falls back
//! to an external oracle when no record applies, and normalizes path
//! separators and environment-variable syntax for the target platform.

pub mod command;
pub mod danger;
pub mod engine;
pub mod matcher;
pub mod normalize;
pub mod oracle;
pub mod platform;
pub mod split;
pub mod strutil;

pub use command::Command;
pub use danger::is_dangerous;
pub use engine::TranslationEngine;
pub use oracle::{CopilotWrapper, OracleError, OracleRunner, SilentOracle};
pub use platform::Platform;
