//! Structural nesting for a flat sequence of norg markup blocks.
//!
//! Earlier pipeline stages produce a flat sequence of block nodes in which
//! structural openers (headings, nestable detached modifiers) carry a nesting
//! level but no children.  This crate resolves that sequence into a nested
//! tree: every opener absorbs the following nodes that belong inside it,
//! delimiting modifiers close heading scopes, and a carryover tag wrapping an
//! opener is transparent for nesting.

pub mod ast;
pub mod stage_4;
pub mod props;
