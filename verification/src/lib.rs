//! A layered content filter: a text is evaluated against banned keywords,
//! weighted warning keywords, regular-expression pattern rules, whitelist
//! contexts and a built-in table of dangerous word combinations, and the
//! verdict is decided by a mode-dependent threshold.

pub mod config;
pub mod filter;
pub mod laws;
pub mod model;
pub mod outside;
pub mod text;

pub use config::FilterMode;
pub use filter::{ContentFilter, FilterResult};
