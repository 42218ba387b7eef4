//! The mathematical model of the layout walk.
//!
//! `step_node` is a pure, recursive description of what one preorder visit
//! of a syntax node does to the walk state; the executable walker is proved
//! to agree with it exactly, on every tree.  Several layout choices admit
//! alternatives; the policies the model pins down:
//!
//! * Scopes close structurally: the handler that opens a scope at a node's
//!   entry closes it when that node's subtree has been walked, so the scope
//!   stack mirrors the tree's nesting exactly.
//! * The step unit is 100 grid cells in both directions; a generic action
//!   advances half a step; the fan-out of an `if` is one step times the
//!   number of enclosing open `if` scopes plus one; match arms are spread
//!   three steps apart.
//! * All coordinate arithmetic saturates at the edge of the 32-bit grid
//!   (`sat32`); running off the grid is not an error.
//! * An early `return` sets the one-shot flag whatever the innermost scope
//!   is; branch closes clear it, the function close consumes it and skips
//!   the duplicate terminal block, and loop and match closes ignore it so
//!   that their structural join markers are always emitted.
//! * Every match arm counts as one arm; the countdown starts at the number
//!   of `match_arm` nodes in the body, and the arm that exhausts it is
//!   emitted as the `EndMatchArm` marker.  Arms are terminal: an arm's
//!   pattern and body are summarized by its one marker block, and the
//!   walk does not descend into them.
//! * A `match` header holding a second `match` keyword token among its
//!   direct children is rejected as unsupported input.
//! * Nodes with no registered handler and no classification emit one
//!   `Action` block carrying their literal source text and are not entered:
//!   their children are already covered by that text.

use vstd::prelude::*;

use crate::blocks::{AnalyzeError, BlockType, BlockV};
use crate::builder::{sat32, ScopeV};
use crate::context::StateV;
use crate::text::{contains_char, contains_seq, first_char_idx, is_blank, last_char_idx};
use crate::tree::{count_kind, first_kind_idx, has_kind, SyntaxNode};

verus! {

// ---------------------------------------------------------------------------
// Classification tables
// ---------------------------------------------------------------------------
/// Kinds that open a construct's body: they clear the header-suppression
/// flag when they arrive.
pub open spec fn is_body_kind(k: Seq<char>) -> bool {
    k == "block"@ || k == "match_block"@
}

/// Kinds skipped entirely: structural punctuation and comments.
pub open spec fn is_ignored_kind(k: Seq<char>) -> bool {
    ||| k == "{"@
    ||| k == "}"@
    ||| k == "("@
    ||| k == ")"@
    ||| k == ";"@
    ||| k == ","@
    ||| k == "else"@
    ||| k == "=>"@
    ||| k == "line_comment"@
    ||| k == "block_comment"@
}

/// Kinds traversed into without a block of their own.
pub open spec fn is_transparent_kind(k: Seq<char>) -> bool {
    k == "source_file"@ || k == "block"@ || k == "match_block"@ || k == "expression_statement"@
}

/// The three loop kinds share one handler.
pub open spec fn is_loop_kind(k: Seq<char>) -> bool {
    k == "for_expression"@ || k == "while_expression"@ || k == "loop_expression"@
}

/// How the dispatch table sorts a node kind: one construct handler per
/// recognized kind, tables for what is skipped or passed through, and the
/// generic fallback for everything else.
#[derive(Clone, Copy, Debug, PartialEq, Eq, Structural)]
pub enum NodeClass {
    Ignored,
    Transparent,
    Function,
    If,
    Else,
    Loop,
    Match,
    Arm,
    Return,
    Macro,
    Ident,
    Generic,
}

/// The dispatch decision for one node kind.
pub open spec fn classify(k: Seq<char>) -> NodeClass {
    if is_ignored_kind(k) {
        NodeClass::Ignored
    } else if is_transparent_kind(k) {
        NodeClass::Transparent
    } else if k == "function_item"@ {
        NodeClass::Function
    } else if k == "if_expression"@ {
        NodeClass::If
    } else if k == "else_clause"@ {
        NodeClass::Else
    } else if is_loop_kind(k) {
        NodeClass::Loop
    } else if k == "match_expression"@ {
        NodeClass::Match
    } else if k == "match_arm"@ {
        NodeClass::Arm
    } else if k == "return_expression"@ {
        NodeClass::Return
    } else if k == "macro_invocation"@ {
        NodeClass::Macro
    } else if k == "identifier"@ {
        NodeClass::Ident
    } else {
        NodeClass::Generic
    }
}

// ---------------------------------------------------------------------------
// Scope-stack queries
// ---------------------------------------------------------------------------
/// How many open `if` scopes the stack holds.
pub open spec fn count_if_scopes(st: Seq<ScopeV>) -> nat
    decreases st,
{
    if st.len() == 0 {
        0
    } else {
        (if st[0] is If {
            1nat
        } else {
            0nat
        }) + count_if_scopes(st.drop_first())
    }
}

/// Splits `count_if_scopes` of a suffix at its first element.
pub proof fn lemma_count_if_split(st: Seq<ScopeV>, i: int)
    requires
        0 <= i < st.len(),
    ensures
        count_if_scopes(st.skip(i)) == (if st[i] is If {
            1nat
        } else {
            0nat
        }) + count_if_scopes(st.skip(i + 1)),
{
    assert(st.skip(i).drop_first() =~= st.skip(i + 1));
    assert(st.skip(i)[0] == st[i]);
}

/// `count_if_scopes` never exceeds the stack's length.
pub proof fn lemma_count_if_bound(st: Seq<ScopeV>)
    ensures
        count_if_scopes(st) <= st.len(),
    decreases st,
{
    if st.len() > 0 {
        lemma_count_if_bound(st.drop_first());
    }
}

/// True when some branching construct (an `if`, `else` or `match`) is open.
pub open spec fn has_branch_scope(st: Seq<ScopeV>) -> bool {
    exists|i: int| 0 <= i < st.len() && (st[i] is If || st[i] is Else || st[i] is Match)
}

/// Horizontal fan-out of an `if` whose entry finds `c` open `if` scopes.
pub open spec fn fan_width(c: nat) -> int {
    sat32(100 * (c as int + 1))
}

// ---------------------------------------------------------------------------
// Labels
// ---------------------------------------------------------------------------
/// The header text of a construct: the texts of the children before its
/// body block, joined by single spaces (`"for i in 0..5"`, `"match x"`).
pub open spec fn header_from(cs: Seq<SyntaxNode>, i: int) -> Seq<char>
    decreases cs.len() - i when 0 <= i <= cs.len()
{
    if i >= cs.len() || is_body_kind(cs[i].kind@) {
        Seq::empty()
    } else {
        let rest = header_from(cs, i + 1);
        if rest.len() == 0 {
            cs[i].text@
        } else {
            cs[i].text@ + " "@ + rest
        }
    }
}

/// The header label of a whole child list.
pub open spec fn header_label(cs: Seq<SyntaxNode>) -> Seq<char> {
    header_from(cs, 0)
}

/// The boolean expression an `if` tests: the child after the keyword.
pub open spec fn cond_label(n: SyntaxNode) -> Seq<char> {
    if n.children@.len() >= 2 {
        n.children@[1].text@
    } else {
        Seq::empty()
    }
}

/// A function's display name: its first identifier child.
pub open spec fn fn_label(cs: Seq<SyntaxNode>) -> Seq<char> {
    if first_kind_idx(cs, "identifier"@) >= 0 {
        cs[first_kind_idx(cs, "identifier"@)].text@
    } else {
        "anonymous"@
    }
}

/// The label of a `return`: the returned expression, or the keyword alone.
pub open spec fn ret_label(n: SyntaxNode) -> Seq<char> {
    if n.children@.len() >= 2 {
        n.children@[1].text@
    } else {
        "return"@
    }
}

/// The marker label of a match arm: its pattern's text.
pub open spec fn arm_label(n: SyntaxNode) -> Seq<char> {
    if n.children@.len() >= 1 {
        n.children@[0].text@
    } else {
        Seq::empty()
    }
}

/// True when a macro invocation is print-like.
pub open spec fn macro_is_print(t: Seq<char>) -> bool {
    contains_seq(t, "print"@)
}

/// The label of a print-like macro: the quoted literal alone when the call
/// carries one plain literal without interpolation placeholders, and the
/// full call text otherwise.
pub open spec fn print_label(t: Seq<char>) -> Seq<char> {
    let fq = first_char_idx(t, '"');
    let lq = last_char_idx(t, '"');
    if fq < 0 || lq <= fq {
        t
    } else {
        let inner = t.subrange(fq + 1, lq);
        if contains_char(inner, '{') {
            t
        } else {
            inner
        }
    }
}

// ---------------------------------------------------------------------------
// State helpers
// ---------------------------------------------------------------------------
/// Appends one block at the cursor.
pub open spec fn emit(s: StateV, kind: BlockType, text: Seq<char>) -> StateV {
    StateV { blocks: s.blocks.push(BlockV { kind, text, x: s.x, y: s.y }), ..s }
}

/// Appends one block at an explicit coordinate.
pub open spec fn emit_at(s: StateV, kind: BlockType, text: Seq<char>, x: int, y: int) -> StateV {
    StateV { blocks: s.blocks.push(BlockV { kind, text, x, y }), ..s }
}

/// The larger of two coordinates.
pub open spec fn max2(a: int, b: int) -> int {
    if a >= b {
        a
    } else {
        b
    }
}

// ---------------------------------------------------------------------------
// Construct handlers
// ---------------------------------------------------------------------------
/// Function entry: a `Start` block named after the function, a `Function`
/// scope, one step down; the header children are suppressed.
pub open spec fn enter_function(s: StateV, n: SyntaxNode) -> StateV {
    let s1 = emit(s, BlockType::Start, fn_label(n.children@));
    StateV {
        stack: s1.stack.push(ScopeV::Function),
        y: sat32(s1.y + 100),
        skip: true,
        ..s1
    }
}

/// Function close: consume a pending early return, or emit the `End` block.
pub open spec fn close_function(s: StateV, n: SyntaxNode) -> Result<StateV, AnalyzeError> {
    if s.stack.len() == 0 || !(s.stack.last() is Function) {
        Err(AnalyzeError::UnbalancedScope(crate::blocks::ConstructKind::Function, n.start, n.end))
    } else {
        let s1 = if s.is_ret {
            StateV { is_ret: false, ..s }
        } else {
            emit(s, BlockType::End, "end"@)
        };
        Ok(
            StateV {
                stack: s1.stack.drop_last(),
                y: sat32(s1.y + 100),
                skip: false,
                ..s1
            },
        )
    }
}

/// If entry: the branch ceiling restarts at the current row when no
/// branching construct is open; a `Condition` block is emitted, the return
/// point for a possible `else` is saved one fan-out to the left on the
/// condition's own row, and the cursor fans out right and one step down.
pub open spec fn enter_if(s: StateV, n: SyntaxNode) -> StateV {
    let ceiling0 = if has_branch_scope(s.stack) {
        s.ceiling
    } else {
        s.y
    };
    let fan = fan_width(count_if_scopes(s.stack));
    let s1 = emit(StateV { ceiling: ceiling0, ..s }, BlockType::Condition, cond_label(n));
    StateV {
        stack: s1.stack.push(ScopeV::If { ox: s.x, oy: s.y, shift: fan }),
        rps: s1.rps.push((sat32(s.x - fan), s.y)),
        x: sat32(s.x + fan),
        y: sat32(s.y + 100),
        skip: true,
        ..s1
    }
}

/// If close: the origin column is restored and the ceiling remembers how
/// deep the branch went.  Without an `else` the saved return point is
/// discarded and the next row is just below the condition; with one, the
/// `else` branch has already settled the cursor.
pub open spec fn close_if(s: StateV, n: SyntaxNode) -> Result<StateV, AnalyzeError> {
    if s.stack.len() == 0 || !(s.stack.last() is If) {
        Err(AnalyzeError::UnbalancedScope(crate::blocks::ConstructKind::If, n.start, n.end))
    } else {
        let ox = s.stack.last()->If_ox;
        let oy = s.stack.last()->If_oy;
        let ceiling1 = max2(s.ceiling, s.y);
        if has_kind(n.children@, "else_clause"@) {
            Ok(
                StateV {
                    stack: s.stack.drop_last(),
                    x: ox,
                    ceiling: ceiling1,
                    is_ret: false,
                    skip: false,
                    ..s
                },
            )
        } else {
            Ok(
                StateV {
                    stack: s.stack.drop_last(),
                    x: ox,
                    y: sat32(oy + 100),
                    rps: if s.rps.len() > 0 {
                        s.rps.drop_last()
                    } else {
                        s.rps
                    },
                    ceiling: ceiling1,
                    is_ret: false,
                    skip: false,
                    ..s
                },
            )
        }
    }
}

/// Else entry: fatal without a saved return point.  The `Else` marker is
/// emitted at the return point — where the false branch must resume, not
/// where the true branch ended.  An `else if` opens no scope of its own:
/// the nested `if` handler will.
pub open spec fn enter_else(s: StateV, n: SyntaxNode) -> Result<StateV, AnalyzeError> {
    let ceiling1 = max2(s.ceiling, s.y);
    if s.rps.len() == 0 {
        Err(AnalyzeError::UnmatchedElse(n.start, n.end))
    } else {
        let rx = s.rps.last().0;
        let ry = s.rps.last().1;
        let s1 = emit_at(
            StateV { rps: s.rps.drop_last(), ceiling: ceiling1, x: rx, y: ry, ..s },
            BlockType::Else,
            "else"@,
            rx,
            ry,
        );
        if has_kind(n.children@, "if_expression"@) {
            Ok(s1)
        } else {
            Ok(
                StateV {
                    stack: s1.stack.push(ScopeV::Else { ox: rx, oy: ry }),
                    y: sat32(ry + 100),
                    ..s1
                },
            )
        }
    }
}

/// Else close: for a real `else` branch, converge below the deeper of the
/// two branches; an `else if` opened nothing, so nothing closes.
pub open spec fn close_else(s: StateV, n: SyntaxNode) -> Result<StateV, AnalyzeError> {
    if has_kind(n.children@, "if_expression"@) {
        Ok(s)
    } else if s.stack.len() == 0 || !(s.stack.last() is Else) {
        Err(AnalyzeError::UnbalancedScope(crate::blocks::ConstructKind::Else, n.start, n.end))
    } else {
        let ox = s.stack.last()->Else_ox;
        let ceiling1 = max2(s.ceiling, s.y);
        Ok(
            StateV {
                stack: s.stack.drop_last(),
                x: ox,
                y: sat32(ceiling1 + 100),
                ceiling: ceiling1,
                is_ret: false,
                skip: false,
                ..s
            },
        )
    }
}

/// Loop entry: a `Cycle` block labeled with the loop header, the pre-entry
/// cursor saved as the anchor for the back edge, and the cursor shifted one
/// step right and down; the header children are suppressed.
pub open spec fn enter_loop(s: StateV, n: SyntaxNode) -> StateV {
    let s1 = emit(s, BlockType::Cycle, header_label(n.children@));
    StateV {
        stack: s1.stack.push(ScopeV::Loop { ax: s.x, ay: s.y }),
        x: sat32(s.x + 100),
        y: sat32(s.y + 100),
        skip: true,
        ..s1
    }
}

/// Loop close: an `End` block carrying the anchor coordinate, so the
/// consumer can draw the back edge to the loop head; the cursor returns to
/// the anchor column and continues below the body.
pub open spec fn close_loop(s: StateV, n: SyntaxNode) -> Result<StateV, AnalyzeError> {
    if s.stack.len() == 0 || !(s.stack.last() is Loop) {
        Err(AnalyzeError::UnbalancedScope(crate::blocks::ConstructKind::Loop, n.start, n.end))
    } else {
        let ax = s.stack.last()->Loop_ax;
        let ay = s.stack.last()->Loop_ay;
        let s1 = emit_at(s, BlockType::End, "end"@, ax, ay);
        Ok(
            StateV {
                stack: s1.stack.drop_last(),
                x: ax,
                y: sat32(s.y + 100),
                skip: false,
                ..s1
            },
        )
    }
}

/// The number of arms a `match` node's body holds.
pub open spec fn arm_count(n: SyntaxNode) -> nat {
    let bi = first_kind_idx(n.children@, "match_block"@);
    if bi >= 0 {
        count_kind(n.children@[bi].children@, "match_arm"@)
    } else {
        0
    }
}

/// Match entry: fatal when the header repeats the `match` keyword token.
/// Otherwise a `Condition` block labeled with the header, a `Match` scope
/// carrying the anchor and the arm countdown, and the cursor shifted three
/// steps left onto the arm row.
pub open spec fn enter_match(s: StateV, n: SyntaxNode) -> Result<StateV, AnalyzeError> {
    if count_kind(n.children@, "match"@) >= 2 {
        Err(AnalyzeError::DuplicateMatchHeader(n.start, n.end))
    } else {
        let ceiling0 = if has_branch_scope(s.stack) {
            s.ceiling
        } else {
            s.y
        };
        let s1 = emit(
            StateV { ceiling: ceiling0, ..s },
            BlockType::Condition,
            header_label(n.children@),
        );
        Ok(
            StateV {
                stack: s1.stack.push(
                    ScopeV::Match { ax: s.x, ay: sat32(s.y + 100), remaining: arm_count(n) },
                ),
                x: sat32(s.x - 300),
                y: sat32(s.y + 100),
                skip: true,
                ..s1
            },
        )
    }
}

/// Match close: converge at the anchor column, half a step below the
/// deepest arm, and emit the `End` block that joins the arms.
pub open spec fn close_match(s: StateV, n: SyntaxNode) -> Result<StateV, AnalyzeError> {
    if s.stack.len() == 0 || !(s.stack.last() is Match) {
        Err(AnalyzeError::UnbalancedScope(crate::blocks::ConstructKind::Match, n.start, n.end))
    } else {
        let ax = s.stack.last()->Match_ax;
        let ceiling1 = max2(s.ceiling, s.y);
        let ey = sat32(ceiling1 + 50);
        let s1 = emit_at(s, BlockType::End, "match"@, ax, ey);
        Ok(
            StateV {
                stack: s1.stack.drop_last(),
                x: ax,
                y: sat32(ey + 100),
                ceiling: ceiling1,
                skip: false,
                ..s1
            },
        )
    }
}

/// One match arm: fatal outside an open `match`.  The marker lands one arm
/// width to the right of its predecessor, on the match's arm row; the arm
/// that exhausts the countdown is the `EndMatchArm` marker.  Arms are
/// terminal: the arm's own marker covers its pattern and body.
pub open spec fn step_arm(s: StateV, n: SyntaxNode) -> Result<StateV, AnalyzeError> {
    if s.stack.len() == 0 || !(s.stack.last() is Match) {
        Err(AnalyzeError::MisplacedMatchArm(n.start, n.end))
    } else {
        let ax = s.stack.last()->Match_ax;
        let ay = s.stack.last()->Match_ay;
        let rem = s.stack.last()->Match_remaining;
        let x1 = sat32(s.x + 300);
        let kind = if rem == 1 {
            BlockType::EndMatchArm
        } else {
            BlockType::Action
        };
        let rem1: nat = if rem > 0 {
            (rem - 1) as nat
        } else {
            0
        };
        let s1 = emit_at(s, kind, arm_label(n), x1, ay);
        Ok(
            StateV {
                stack: s1.stack.update(
                    s1.stack.len() - 1,
                    ScopeV::Match { ax: ax, ay: ay, remaining: rem1 },
                ),
                x: x1,
                y: sat32(ay + 100),
                ceiling: max2(s.ceiling, ay),
                ..s1
            },
        )
    }
}

/// A `return`: an `End` block labeled with the returned expression, one
/// step down, and the early-return flag set.
pub open spec fn step_return(s: StateV, n: SyntaxNode) -> StateV {
    let s1 = emit(s, BlockType::End, ret_label(n));
    StateV { y: sat32(s1.y + 100), is_ret: true, ..s1 }
}

/// A macro invocation: print-like calls become `Print` blocks with their
/// literal pulled out; anything else is an `Action` with the call text.
pub open spec fn step_macro(s: StateV, n: SyntaxNode) -> StateV {
    let s1 = if macro_is_print(n.text@) {
        emit(s, BlockType::Print, print_label(n.text@))
    } else {
        emit(s, BlockType::Action, n.text@)
    };
    StateV { y: sat32(s1.y + 100), ..s1 }
}

/// The generic fallback: one `Action` block carrying the node's literal
/// text, half a step down; whitespace-only nodes emit nothing.
pub open spec fn step_generic(s: StateV, n: SyntaxNode) -> StateV {
    if is_blank(n.text@) {
        s
    } else {
        let s1 = emit(s, BlockType::Action, n.text@);
        StateV { y: sat32(s1.y + 50), ..s1 }
    }
}

// ---------------------------------------------------------------------------
// The walk
// ---------------------------------------------------------------------------
/// One preorder visit: classify, dispatch, recurse, close.
pub open spec fn step_node(s: StateV, n: SyntaxNode) -> Result<StateV, AnalyzeError>
    decreases n,
{
    let k = n.kind@;
    if s.skip && !is_body_kind(k) {
        Ok(s)
    } else {
        let s0 = StateV { skip: false, ..s };
        match classify(k) {
            NodeClass::Ignored => Ok(s0),
            NodeClass::Transparent => step_children(s0, n.children@),
            NodeClass::Function => match step_children(enter_function(s0, n), n.children@) {
                Ok(s2) => close_function(s2, n),
                Err(e) => Err(e),
            },
            NodeClass::If => match step_children(enter_if(s0, n), n.children@) {
                Ok(s2) => close_if(s2, n),
                Err(e) => Err(e),
            },
            NodeClass::Else => match enter_else(s0, n) {
                Ok(s1) => match step_children(s1, n.children@) {
                    Ok(s2) => close_else(s2, n),
                    Err(e) => Err(e),
                },
                Err(e) => Err(e),
            },
            NodeClass::Loop => match step_children(enter_loop(s0, n), n.children@) {
                Ok(s2) => close_loop(s2, n),
                Err(e) => Err(e),
            },
            NodeClass::Match => match enter_match(s0, n) {
                Ok(s1) => match step_children(s1, n.children@) {
                    Ok(s2) => close_match(s2, n),
                    Err(e) => Err(e),
                },
                Err(e) => Err(e),
            },
            NodeClass::Arm => step_arm(s0, n),
            NodeClass::Return => Ok(step_return(s0, n)),
            NodeClass::Macro => Ok(step_macro(s0, n)),
            // Identifiers are visited but never become blocks of their own.
            NodeClass::Ident => Ok(s0),
            NodeClass::Generic => Ok(step_generic(s0, n)),
        }
    }
}

/// The children of one node, left to right; the first failure aborts.
pub open spec fn step_children(s: StateV, cs: Seq<SyntaxNode>) -> Result<StateV, AnalyzeError>
    decreases cs,
{
    if cs.len() == 0 {
        Ok(s)
    } else {
        match step_node(s, cs[0]) {
            Ok(s1) => step_children(s1, cs.drop_first()),
            Err(e) => Err(e),
        }
    }
}

/// What converting a whole tree yields: the Block Sequence of a walk from
/// the fresh state, or the first fatal condition.
pub open spec fn tree_outcome(root: SyntaxNode) -> Result<Seq<BlockV>, AnalyzeError> {
    match step_node(crate::context::init_state(), root) {
        Ok(s) => Ok(s.blocks),
        Err(e) => Err(e),
    }
}

/// The arms' container passes the walk through: its kind is transparent
/// and clears header suppression, and no table claims it first.
pub proof fn lemma_match_block_is_transparent()
    ensures
        classify("match_block"@) == NodeClass::Transparent,
        is_body_kind("match_block"@),
{
    reveal_strlit("match_block");
    reveal_strlit("{");
    reveal_strlit("}");
    reveal_strlit("(");
    reveal_strlit(")");
    reveal_strlit(";");
    reveal_strlit(",");
    reveal_strlit("else");
    reveal_strlit("=>");
    reveal_strlit("line_comment");
    reveal_strlit("block_comment");
    assert("match_block"@.len() == 11);
    assert("{"@.len() == 1);
    assert("}"@.len() == 1);
    assert("("@.len() == 1);
    assert(")"@.len() == 1);
    assert(";"@.len() == 1);
    assert(","@.len() == 1);
    assert("else"@.len() == 4);
    assert("=>"@.len() == 2);
    assert("line_comment"@.len() == 12);
    assert("block_comment"@.len() == 13);
    assert(!is_ignored_kind("match_block"@));
}

/// Splits `step_children` of a suffix at its first element.
pub proof fn lemma_step_children_split(s: StateV, cs: Seq<SyntaxNode>, i: int)
    requires
        0 <= i < cs.len(),
    ensures
        step_children(s, cs.skip(i)) == (match step_node(s, cs[i]) {
            Ok(s1) => step_children(s1, cs.skip(i + 1)),
            Err(e) => Err(e),
        }),
{
    assert(cs.skip(i).drop_first() =~= cs.skip(i + 1));
    assert(cs.skip(i)[0] == cs[i]);
}

} // verus!
