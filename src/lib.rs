//! Textual output for tree-like structures.
//!
//! A tree of labelled nodes is rendered as an aligned block of lines, one line per
//! node, using configurable ASCII or box-drawing connector glyphs.
pub mod format;
pub mod laws;
pub mod node;
pub mod render;

pub use format::{AnchorPosition, FormatCharacters, TreeFormatting, TreeOrientation};
pub use node::{NodeLabel, StringTreeNode, TreeNode};
