//! The output row type of the converter: one diagram block per emitted
//! flowchart node, plus the error taxonomy of a conversion.

use vstd::prelude::*;

verus! {

/// The kind of one flowchart block.
#[derive(Clone, Copy, Debug, PartialEq, Eq, Structural)]
pub enum BlockType {
    Start,
    End,
    Action,
    Print,
    Condition,
    Cycle,
    Else,
    EndMatchArm,
}

/// Mathematical model of one emitted block.
#[verifier::ext_equal]
pub ghost struct BlockV {
    pub kind: BlockType,
    pub text: Seq<char>,
    pub x: int,
    pub y: int,
}

/// One row of the converter's output: a flowchart node with its grid
/// coordinate.  Blocks are immutable once appended.
#[derive(Debug)]
pub struct CodeBlock {
    pub kind: BlockType,
    pub text: String,
    pub x: i32,
    pub y: i32,
}

impl View for CodeBlock {
    type V = BlockV;

    open spec fn view(&self) -> BlockV {
        BlockV { kind: self.kind, text: self.text@, x: self.x as int, y: self.y as int }
    }
}

/// The same row shape, as handed to language-independent consumers of the
/// per-language analyzers.
#[derive(Debug)]
pub struct LocalVecBlock {
    pub kind: BlockType,
    pub text: String,
    pub x: i32,
    pub y: i32,
}

impl View for LocalVecBlock {
    type V = BlockV;

    open spec fn view(&self) -> BlockV {
        BlockV { kind: self.kind, text: self.text@, x: self.x as int, y: self.y as int }
    }
}

/// The models of a list of emitted blocks, in emission order.
pub open spec fn blocks_view(v: Seq<CodeBlock>) -> Seq<BlockV> {
    Seq::new(v.len(), |i: int| v[i]@)
}

/// The models of a list of repackaged rows, in emission order.
pub open spec fn local_blocks_view(v: Seq<LocalVecBlock>) -> Seq<BlockV> {
    Seq::new(v.len(), |i: int| v[i]@)
}

/// The construct a structural error points at, for error reports.
#[derive(Clone, Copy, Debug, PartialEq, Eq, Structural)]
pub enum ConstructKind {
    Function,
    If,
    Else,
    Loop,
    Match,
}

/// Why a conversion was refused.  Each variant names the construct whose
/// rules were broken, and the two byte offsets locate the offending node's
/// span in the source, so the caller can point at it.
///
/// Everything except `ParseFailed` is a structural invariant violation: the
/// walker's nesting assumptions were broken by input outside the supported
/// subset, and no partial output is safe to emit.
#[derive(Clone, Copy, Debug, PartialEq, Eq, Structural)]
pub enum AnalyzeError {
    /// The external parser produced no tree.
    ParseFailed,
    /// An `else` clause arrived with no open branch to resume from.
    UnmatchedElse(usize, usize),
    /// A match header holds a second `match` keyword token; nesting must be
    /// expressed through recursion, not token repetition.
    DuplicateMatchHeader(usize, usize),
    /// A match arm appeared while the innermost open scope is not a match.
    MisplacedMatchArm(usize, usize),
    /// The named construct closed over a scope it did not open.
    UnbalancedScope(ConstructKind, usize, usize),
}

} // verus!
