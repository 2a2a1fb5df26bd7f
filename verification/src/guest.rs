//! Helpers for module authors: accumulating table schemas and rows, and
//! naming the files through which they and sub-content reach the host.

pub mod content;
pub mod metadata;
pub mod subcontent;
pub mod table;
