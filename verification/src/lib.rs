//! Stable, human-readable task titles for agent sessions.

pub mod codex;
pub mod cold;
pub mod context;
pub mod herdr;
pub mod keys;
pub mod slug;
pub mod state;
pub mod text;
