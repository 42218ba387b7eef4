//! Converts a parsed source-code syntax tree into an ordered sequence of
//! positioned diagram blocks that describe the program's control flow as a
//! flowchart: start/end nodes, action steps, conditions, loops, branch joins
//! and match-arm markers, each carrying a 2D grid coordinate.
//!
//! The core of the crate is the verified layout walker: a depth-first,
//! left-to-right traversal of the tree that classifies each node, dispatches
//! it to a construct handler, and threads a single layout context (cursor,
//! scope stack, return-point stack, branch ceiling, one-shot flags) through
//! the walk.  The entire walker is specified by a pure, recursive model
//! (`model::step_node`) and the executable walker is proved to agree with it
//! on every input tree.
//!
//! Parsing raw text into a tree is done by an external parser; only the thin
//! calls into it are trusted, and everything downstream of the returned tree
//! is verified.

pub mod analyzer;
pub mod args;
pub mod blocks;
pub mod builder;
pub mod context;
pub mod laws;
pub mod model;
pub mod text;
pub mod tree;
pub mod walker;

pub use analyzer::{Language, Rust, RustAnalyzer};
pub use args::{find_language, get_argument};
pub use blocks::{AnalyzeError, BlockType, CodeBlock, LocalVecBlock};
pub use builder::{BlockScope, DiagramBuilder};
pub use context::Context;
pub use tree::SyntaxNode;
pub use walker::{analyze_tree, AstProcessor};
