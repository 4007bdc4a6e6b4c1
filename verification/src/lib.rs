//! A verified host for user-supplied scripts.
//!
//! The crate discovers script sources handed to it as plain data, compiles
//! them through the `rhai` engine, keeps one record per script path, exposes
//! a fixed capability surface to every script, and isolates failures so that
//! one broken script never takes the host or its neighbours down.

pub mod conf;
pub mod console;
pub mod dirs;
pub mod host;
pub mod ledger;
pub mod life;
pub mod record;
pub mod rhai_api;
pub mod search;
pub mod surface;
pub mod text;
pub mod theme;

pub use conf::valid_hex_color;
