//! Core logic of a media-download manager built around an external
//! fetching tool: parsing the tool's line-oriented progress output,
//! selecting and combining format identifiers, building argument lists,
//! classifying failures, and tracking the per-download event stream.

pub mod args;
pub mod config;
pub mod errors;
pub mod events;
pub mod files;
pub mod logging;
pub mod parse;
pub mod progress;
pub mod select;
pub mod strutil;
pub mod text;
pub mod types;
