//! Management of a flat `key: value` settings file: listing, resetting and
//! updating settings, with near-miss resolution of mistyped setting names.
//!
//! The library decides and computes; it touches neither files nor the
//! terminal. A caller reads the file, hands its text to [`read_config`], runs
//! a command of [`commands`] on the result, and shows and writes what the
//! command returns.

pub mod commands;
pub mod error;
pub mod key;
pub mod path;
pub mod resolver;
pub mod rewrite;
pub mod store;
pub mod style;
pub mod text;

pub use path::config_path;
pub use store::read_config;
