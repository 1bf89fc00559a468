//! Scenery-pack manifest editing: a lossless codec for the manifest text
//! format, a branch-discarding undo/redo history stack, and a pure state
//! reducer that threads edits through the history.

pub mod history;
pub mod i18n;
pub mod pack_list;
pub mod parsers;
pub mod settings;
pub mod setup;
pub mod state;
