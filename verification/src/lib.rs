//! Commitchi: the verified core of a Git-history time machine with a pixel pet.
//!
//! The library holds the logic of the application as plain values: the pet's
//! mood model and its persisted activity log, the structured diff model and the
//! rules that build and truncate it, commit paging, the managed post-commit hook
//! text, timeline jumping, key bindings, the event schedule and the sprite art.
//! Reading the repository, the terminal and the file system is left to callers.

pub mod text;
pub mod pet;
pub mod pet_laws;
pub mod diff;
pub mod playback;
pub mod hooks;
pub mod bindings;
pub mod events;
pub mod panel;
pub mod screen;
pub mod sprite;
pub mod config;
pub mod navigator;
