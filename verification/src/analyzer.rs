//! The parsing front-end: the thin trusted calls into the external parser,
//! and the public per-language analyzer.
//!
//! The parser is deterministic, so the tree it yields is a function of the
//! source text alone; `parsed_of` names that function, and everything
//! downstream is verified: an analysis is exactly the model's walk of
//! `parsed_of(source)`, on every input.

use vstd::prelude::*;

use crate::blocks::{blocks_view, local_blocks_view, AnalyzeError, BlockV, CodeBlock,
    LocalVecBlock};
use crate::model;
use crate::tree::SyntaxNode;
use crate::walker::analyze_tree;

verus! {

/// The tree the external parser yields for given source text, or nothing
/// where it cannot produce one.  The parser runs a fixed grammar with no
/// options, so the result depends on the text alone.
pub uninterp spec fn parsed_of(s: Seq<char>) -> Option<SyntaxNode>;

/// The external parser's node handle, declared so that the conversion
/// helper below can take it.
#[verifier::external_type_specification]
#[verifier::external_body]
pub struct ExTsNode<'tree>(tree_sitter::Node<'tree>);

/// Relies on `tree_sitter::Node`: `kind`, `utf8_text`, `start_byte`,
/// `end_byte`, `child_count` and `child` describe one node of the parsed
/// tree.  Rebuilds that node as the library's own plain tree, child by
/// child in source order.
#[verifier::external_body]
fn convert_ts_node(node: tree_sitter::Node<'_>, source: &str) -> (t: SyntaxNode) {
    let text = node.utf8_text(source.as_bytes()).unwrap_or("").to_string();
    let mut children = Vec::new();
    for i in 0..node.child_count() {
        if let Some(c) = node.child(i) {
            children.push(convert_ts_node(c, source));
        }
    }
    let (kind, start, end) = (node.kind().to_string(), node.start_byte(), node.end_byte());
    SyntaxNode { kind, text, start, end, children }
}

/// Relies on `tree_sitter::Parser` with the grammar from
/// `tree_sitter_rust`: parses UTF-8 source text into a concrete syntax
/// tree, or yields nothing when the parser cannot produce one.  The
/// grammar is fixed and the parse deterministic, so the result is the one
/// `parsed_of` names for this text.
#[verifier::external_body]
fn parse_rust_source(source: &str) -> (r: Option<SyntaxNode>)
    ensures
        r == parsed_of(source@),
{
    let mut parser = tree_sitter::Parser::new();
    if parser.set_language(&tree_sitter_rust::LANGUAGE.into()).is_err() {
        return None;
    }
    let tree = parser.parse(source, None)?;
    Some(convert_ts_node(tree.root_node(), source))
}

/// What analyzing given source text must yield: the model's walk of the
/// parsed tree, or `ParseFailed` where no tree exists.
pub open spec fn source_outcome(s: Seq<char>) -> Result<Seq<BlockV>, AnalyzeError> {
    match parsed_of(s) {
        Some(t) => model::tree_outcome(t),
        None => Err(AnalyzeError::ParseFailed),
    }
}

/// The analyzer for Rust source text.
pub struct RustAnalyzer;

impl RustAnalyzer {
    /// Parses the source with the external parser and converts the tree it
    /// produced.  The result is pinned to the source text: success yields
    /// exactly the model's walk of the parsed tree, `ParseFailed` comes
    /// exactly when the parser yields no tree, and every other error is
    /// exactly the walk's structural error.  In particular no partial
    /// sequence is ever delivered, and one text has one outcome.
    pub fn analyze(source: String) -> (r: Result<Vec<CodeBlock>, AnalyzeError>)
        ensures
            match r {
                Ok(blocks) => source_outcome(source@) == Ok::<Seq<BlockV>, AnalyzeError>(
                    blocks_view(blocks@),
                ),
                Err(e) => source_outcome(source@) == Err::<Seq<BlockV>, AnalyzeError>(e),
            },
    {
        match parse_rust_source(source.as_str()) {
            None => Err(AnalyzeError::ParseFailed),
            Some(tree) => analyze_tree(&tree),
        }
    }
}

/// Repackages analyzer rows for language-independent consumers.
pub fn to_local_vec(blocks: &Vec<CodeBlock>) -> (r: Vec<LocalVecBlock>)
    ensures
        r@.len() == blocks@.len(),
        forall|i: int| 0 <= i < blocks@.len() ==> #[trigger] r@[i]@ == blocks@[i]@,
{
    let mut r: Vec<LocalVecBlock> = Vec::new();
    let mut i: usize = 0;
    while i < blocks.len()
        invariant
            i <= blocks@.len(),
            r@.len() == i,
            forall|j: int| 0 <= j < i ==> #[trigger] r@[j]@ == blocks@[j]@,
        decreases blocks@.len() - i,
    {
        let b = &blocks[i];
        r.push(LocalVecBlock { kind: b.kind, text: b.text.clone(), x: b.x, y: b.y });
        i = i + 1;
    }
    r
}

/// One supported source language: its display name and its analyzer.
pub trait Language {
    /// The language's display name, as offered to the user.
    fn get_name(&self) -> (r: &'static str);

    /// Converts one source file into its Block Sequence.
    fn analyze_to_vec(&self, source_code: String) -> (r: Result<Vec<LocalVecBlock>, AnalyzeError>);
}

/// The Rust language.
pub struct Rust;

impl Language for Rust {
    fn get_name(&self) -> (r: &'static str)
        ensures
            r@ == "Rust"@,
    {
        "Rust"
    }

    /// Forwards to the Rust analyzer: success is its Block Sequence row
    /// for row, and its errors pass through unchanged.
    fn analyze_to_vec(&self, source_code: String) -> (r: Result<
        Vec<LocalVecBlock>,
        AnalyzeError,
    >)
        ensures
            match r {
                Ok(rows) => source_outcome(source_code@) == Ok::<Seq<BlockV>, AnalyzeError>(
                    local_blocks_view(rows@),
                ),
                Err(e) => source_outcome(source_code@) == Err::<Seq<BlockV>, AnalyzeError>(e),
            },
    {
        match RustAnalyzer::analyze(source_code) {
            Ok(blocks) => {
                let rows = to_local_vec(&blocks);
                proof {
                    assert(local_blocks_view(rows@) =~= blocks_view(blocks@));
                }
                Ok(rows)
            },
            Err(e) => Err(e),
        }
    }
}

} // verus!
