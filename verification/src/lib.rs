//! Verified core of `editr`: the parsing, naming, matching and planning logic
//! behind opening remote projects in a local editor through a synchronized mirror.

pub mod text;
pub mod order;
pub mod decimal;
pub mod quantity;
pub mod shell;
pub mod hash;
pub mod naming;
pub mod wildcard;
pub mod target;
pub mod config;
pub mod mutagen;
pub mod open;
pub mod session;
pub mod context;
pub mod hydrate;
pub mod editor;
pub mod ssh;
pub mod process;
pub mod commands;
