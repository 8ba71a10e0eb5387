//! Theme resolution for a terminal-based structured-data viewer.
//!
//! The crate turns a sparse, user-supplied theme description into a complete
//! mapping from semantic element names (such as `"string"` or `"object_label"`)
//! to render styles for the four display states, and offers a lookup facade
//! that degrades gracefully when no theme, or no entry, is available.

pub mod color;
pub mod config;
pub mod highlighter;
pub mod style;
