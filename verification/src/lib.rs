//! The decisions behind a small command-line helper around the GitHub Copilot CLI:
//! reading and writing its configuration file, choosing between environment
//! overrides and file values, finding executables on a search path, building the
//! prompts and arguments handed to the Copilot CLI, and the key handling of its
//! interactive screens.
pub mod config;
pub mod doctor;
pub mod keys;
pub mod lookup;
pub mod prompt;
pub mod settings;
pub mod suggest;
pub mod text;
pub mod values;
