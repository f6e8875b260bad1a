//! A store of named shell commands grouped into projects, with per-project
//! environments that fill `{{key}}` placeholders, and a fuzzy search.
pub mod cli;
pub mod client;
pub mod commands;
pub mod environments;
pub mod laws;
pub mod model;
pub mod render;
pub mod search;
pub mod storage;
pub mod store;
pub mod suggest;
pub mod template;
pub mod text;
pub mod wellformed;

pub use client::{CopyButtonState, PacsClient};
pub use model::{Config, Context, PacsCommand, PacsError, Project, Scope};
pub use store::Pacs;
