//! Interactive completion-candidate lifecycle engine.
//!
//! Given a cursor position and a list of suggestion candidates (server-provided
//! or filesystem-path-derived), this crate maintains a live, re-filterable
//! selection, synthesizes atomic text edits for the focused candidate, previews
//! that edit into the document without corrupting prior content, and finalizes
//! or discards the edit on explicit commit or abort.
//!
//! The document is modeled as a vector of characters; all offsets are character
//! offsets into it. Transport, rendering and layout live outside this crate and
//! hand it plain values.

pub mod candidate;
pub mod completion;
pub mod laws;
pub mod menu;
pub mod synthesize;
pub mod text;
pub mod transaction;
