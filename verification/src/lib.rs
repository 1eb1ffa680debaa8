//! View-state core for one directory pane of a terminal file browser.
//!
//! The crate owns three pieces of state over an ordered, path-keyed listing:
//! which entry is hovered, which page is on screen, and which entries are
//! selected. Navigation keeps the cursor inside the visible window with a
//! lookahead margin, and reconciliation keeps the cursor pinned to the same
//! logical entry (by path, not by index) when the listing is replaced.

pub mod files;
pub mod folder;
