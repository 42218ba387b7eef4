//! The executable layout walker, proved equal to the model in `model`.
//!
//! `AstProcessor::process_node` performs one preorder visit exactly as
//! `model::step_node` describes it; `analyze_tree` runs a whole walk from a
//! fresh context and hands back the Block Sequence.

use vstd::prelude::*;
use vstd::string::StrSliceExecFns;
use vstd::string::StringExecFns;

use crate::blocks::{AnalyzeError, BlockType, CodeBlock};
use crate::builder::{max_i32, sat_add, sat_sub, BlockScope};
use crate::context::{Context, StateV};
use crate::model;
use crate::model::NodeClass;
use crate::text::{chars_vec, contains_char, contains_str, find_first, find_last, lemma_first_char_idx, lemma_last_char_idx, text_is_blank};
use crate::tree::{any_kind, locate_kind, tally_kind, SyntaxNode};

verus! {

/// The dispatch decision for one node, matching `model::classify`.
fn classify_node(n: &SyntaxNode) -> (c: NodeClass)
    ensures
        c == model::classify(n.kind@),
{
    if n.kind_is("{") || n.kind_is("}") || n.kind_is("(") || n.kind_is(")") || n.kind_is(";")
        || n.kind_is(",") || n.kind_is("else") || n.kind_is("=>") || n.kind_is("line_comment")
        || n.kind_is("block_comment") {
        NodeClass::Ignored
    } else if n.kind_is("source_file") || n.kind_is("block") || n.kind_is("match_block")
        || n.kind_is("expression_statement") {
        NodeClass::Transparent
    } else if n.kind_is("function_item") {
        NodeClass::Function
    } else if n.kind_is("if_expression") {
        NodeClass::If
    } else if n.kind_is("else_clause") {
        NodeClass::Else
    } else if n.kind_is("for_expression") || n.kind_is("while_expression") || n.kind_is(
        "loop_expression",
    ) {
        NodeClass::Loop
    } else if n.kind_is("match_expression") {
        NodeClass::Match
    } else if n.kind_is("match_arm") {
        NodeClass::Arm
    } else if n.kind_is("return_expression") {
        NodeClass::Return
    } else if n.kind_is("macro_invocation") {
        NodeClass::Macro
    } else if n.kind_is("identifier") {
        NodeClass::Ident
    } else {
        NodeClass::Generic
    }
}

/// True when this node opens a construct's body (clears header
/// suppression).
fn is_body_node(n: &SyntaxNode) -> (r: bool)
    ensures
        r == model::is_body_kind(n.kind@),
{
    n.kind_is("block") || n.kind_is("match_block")
}

/// How many `if` scopes the stack holds.
fn if_scope_count(st: &Vec<BlockScope>) -> (r: usize)
    ensures
        r as nat == model::count_if_scopes(crate::builder::scopes_view(st@)),
{
    let ghost sv = crate::builder::scopes_view(st@);
    proof {
        model::lemma_count_if_bound(sv);
        assert(sv.skip(0) =~= sv);
    }
    let mut total: usize = 0;
    let mut i: usize = 0;
    while i < st.len()
        invariant
            sv == crate::builder::scopes_view(st@),
            sv.len() == st@.len(),
            i <= st@.len(),
            total + model::count_if_scopes(sv.skip(i as int)) == model::count_if_scopes(sv),
            total <= i,
        decreases st@.len() - i,
    {
        proof {
            model::lemma_count_if_split(sv, i as int);
        }
        match st[i] {
            BlockScope::If(_, _, _) => {
                total = total + 1;
            },
            _ => {},
        }
        i = i + 1;
    }
    proof {
        assert(sv.skip(sv.len() as int) =~= Seq::<crate::builder::ScopeV>::empty());
    }
    total
}

/// True when an `if`, `else` or `match` scope is open.
fn branch_scope_open(st: &Vec<BlockScope>) -> (r: bool)
    ensures
        r == model::has_branch_scope(crate::builder::scopes_view(st@)),
{
    let ghost sv = crate::builder::scopes_view(st@);
    let mut i: usize = 0;
    while i < st.len()
        invariant
            sv == crate::builder::scopes_view(st@),
            sv.len() == st@.len(),
            i <= st@.len(),
            forall|j: int| 0 <= j < i ==> !(sv[j] is If || sv[j] is Else || sv[j] is Match),
        decreases st@.len() - i,
    {
        match st[i] {
            BlockScope::If(_, _, _) => {
                proof {
                    assert(sv[i as int] is If);
                }
                return true;
            },
            BlockScope::Else(_, _) => {
                proof {
                    assert(sv[i as int] is Else);
                }
                return true;
            },
            BlockScope::Match(_, _, _) => {
                proof {
                    assert(sv[i as int] is Match);
                }
                return true;
            },
            _ => {},
        }
        i = i + 1;
    }
    false
}

/// The fan-out width for an `if` entered over `c` open `if` scopes.
fn fan_exec(c: usize) -> (r: i32)
    ensures
        r as int == model::fan_width(c as nat),
{
    if c >= 21474836 {
        i32::MAX
    } else {
        100 * ((c as i32) + 1)
    }
}

/// Builds the header label: the texts of the children before the body
/// block, joined by single spaces.
fn build_header(cs: &Vec<SyntaxNode>) -> (r: String)
    ensures
        r@ == model::header_label(cs@),
{
    // Find where the body starts.
    let mut e: usize = 0;
    while e < cs.len()
        invariant
            e <= cs@.len(),
            forall|j: int| 0 <= j < e ==> !model::is_body_kind(#[trigger] cs@[j].kind@),
        ensures
            e <= cs@.len(),
            forall|j: int| 0 <= j < e ==> !model::is_body_kind(#[trigger] cs@[j].kind@),
            e == cs@.len() || model::is_body_kind(cs@[e as int].kind@),
        decreases cs@.len() - e,
    {
        if is_body_node(&cs[e]) {
            break ;
        }
        e = e + 1;
    }
    // Join the header texts back to front.
    let mut acc = String::new();
    let mut i: usize = e;
    while i > 0
        invariant
            e <= cs@.len(),
            i <= e,
            e == cs@.len() || model::is_body_kind(cs@[e as int].kind@),
            forall|j: int| 0 <= j < e ==> !model::is_body_kind(#[trigger] cs@[j].kind@),
            acc@ == model::header_from(cs@, i as int),
        decreases i,
    {
        i = i - 1;
        let acc_empty = acc.as_str().is_empty();
        if acc_empty {
            acc = cs[i].text.clone();
        } else {
            let mut piece = cs[i].text.clone();
            piece.append(" ");
            piece.append(acc.as_str());
            acc = piece;
        }
    }
    acc
}

/// Builds a function's display name: its first identifier child, or the
/// anonymous placeholder.
fn build_fn_label(cs: &Vec<SyntaxNode>) -> (r: String)
    ensures
        r@ == model::fn_label(cs@),
{
    proof {
        crate::tree::lemma_first_kind_idx(cs@, "identifier"@);
    }
    match locate_kind(cs, "identifier") {
        Some(i) => cs[i].text.clone(),
        None => "anonymous".to_owned(),
    }
}

/// The condition text of an `if`: its second child.
fn build_cond_label(n: &SyntaxNode) -> (r: String)
    ensures
        r@ == model::cond_label(*n),
{
    if n.children.len() >= 2 {
        n.children[1].text.clone()
    } else {
        String::new()
    }
}

/// The label of a `return`: the returned expression, or the keyword.
fn build_ret_label(n: &SyntaxNode) -> (r: String)
    ensures
        r@ == model::ret_label(*n),
{
    if n.children.len() >= 2 {
        n.children[1].text.clone()
    } else {
        "return".to_owned()
    }
}

/// The marker label of a match arm: its pattern's text.
fn build_arm_label(n: &SyntaxNode) -> (r: String)
    ensures
        r@ == model::arm_label(*n),
{
    if n.children.len() >= 1 {
        n.children[0].text.clone()
    } else {
        String::new()
    }
}

/// Classifies a macro invocation and synthesizes its label.
fn build_macro(n: &SyntaxNode) -> (r: (BlockType, String))
    ensures
        model::macro_is_print(n.text@) ==> r.0 == BlockType::Print && r.1@ == model::print_label(
            n.text@,
        ),
        !model::macro_is_print(n.text@) ==> r.0 == BlockType::Action && r.1@ == n.text@,
{
    let cv = chars_vec(n.text.as_str());
    if !contains_str(&cv, "print") {
        return (BlockType::Action, n.text.clone());
    }
    let fq = match find_first(&cv, '"') {
        Some(i) => i,
        None => {
            return (BlockType::Print, n.text.clone());
        },
    };
    let lq = match find_last(&cv, '"') {
        Some(i) => i,
        None => {
            return (BlockType::Print, n.text.clone());
        },
    };
    proof {
        lemma_first_char_idx(n.text@, '"');
        lemma_last_char_idx(n.text@, '"');
    }
    if lq <= fq {
        return (BlockType::Print, n.text.clone());
    }
    // Does the literal carry an interpolation placeholder?
    let mut j: usize = fq + 1;
    while j < lq
        invariant
            fq < lq < cv@.len(),
            fq + 1 <= j <= lq,
            cv@ == n.text@,
            model::macro_is_print(n.text@),
            crate::text::first_char_idx(n.text@, '"') == fq as int,
            crate::text::last_char_idx(n.text@, '"') == lq as int,
            forall|m: int| fq + 1 <= m < j ==> cv@[m] != '{',
        decreases lq - j,
    {
        if cv[j] == '{' {
            proof {
                let inner = n.text@.subrange(fq + 1, lq as int);
                assert(inner[j - (fq + 1)] == '{');
                assert(contains_char(inner, '{'));
            }
            return (BlockType::Print, n.text.clone());
        }
        j = j + 1;
    }
    proof {
        let inner = n.text@.subrange(fq + 1, lq as int);
        assert(!contains_char(inner, '{')) by {
            assert(forall|m: int|
                0 <= m < inner.len() ==> #[trigger] inner[m] == cv@[m + fq + 1] && inner[m]
                    != '{');
        }
    }
    let lit = n.text.as_str().substring_char(fq + 1, lq).to_owned();
    (BlockType::Print, lit)
}

/// Walks the tree: classifies each node, dispatches it to its construct
/// handler, and recurses according to the classification tables.
pub struct AstProcessor {}

impl AstProcessor {
    /// The dispatch table is the closed classification in `model::classify`;
    /// nothing else needs construction.
    pub fn new() -> (r: Self) {
        AstProcessor {}
    }

    /// Function entry: see `model::enter_function`.
    pub fn handle_function(node: &SyntaxNode, ctx: &mut Context)
        ensures
            final(ctx)@ == model::enter_function(old(ctx)@, *node),
    {
        let label = build_fn_label(&node.children);
        ctx.builder.add_block(BlockType::Start, label);
        ctx.builder.enter_scope(BlockScope::Function, 0, 100);
        ctx.skip_until_brace = true;
        proof {
            assert(ctx@ =~= model::enter_function(old(ctx)@, *node));
        }
    }

    /// Function close: see `model::close_function`.
    pub fn finish_function(node: &SyntaxNode, ctx: &mut Context) -> (r: Result<(), AnalyzeError>)
        ensures
            match model::close_function(old(ctx)@, *node) {
                Ok(s) => r is Ok && final(ctx)@ == s,
                Err(e) => r == Err::<(), AnalyzeError>(e),
            },
    {
        match ctx.builder.exit_scope() {
            Some(BlockScope::Function) => {
                if ctx.is_return {
                    ctx.is_return = false;
                } else {
                    ctx.builder.add_block(BlockType::End, "end".to_owned());
                }
                ctx.builder.position.1 = sat_add(ctx.builder.position.1, 100);
                ctx.skip_until_brace = false;
                proof {
                    assert(Ok::<StateV, AnalyzeError>(ctx@) =~= model::close_function(
                        old(ctx)@,
                        *node,
                    ));
                }
                Ok(())
            },
            _ => Err(AnalyzeError::UnbalancedScope(crate::blocks::ConstructKind::Function, node.start, node.end)),
        }
    }

    /// If entry: see `model::enter_if`.
    pub fn handle_if(node: &SyntaxNode, ctx: &mut Context)
        ensures
            final(ctx)@ == model::enter_if(old(ctx)@, *node),
    {
        if !branch_scope_open(&ctx.builder.block_stack) {
            ctx.y_if_max = ctx.builder.position.1;
        }
        let c = if_scope_count(&ctx.builder.block_stack);
        let fan = fan_exec(c);
        let ox = ctx.builder.position.0;
        let oy = ctx.builder.position.1;
        let label = build_cond_label(node);
        ctx.builder.add_block(BlockType::Condition, label);
        ctx.if_else_stack.push((sat_sub(ox, fan), oy));
        ctx.builder.enter_scope(BlockScope::If(ox, oy, fan), fan, 100);
        ctx.skip_until_brace = true;
        proof {
            assert(ctx@ =~= model::enter_if(old(ctx)@, *node));
        }
    }

    /// If close: see `model::close_if`.
    pub fn finish_if(node: &SyntaxNode, ctx: &mut Context) -> (r: Result<(), AnalyzeError>)
        ensures
            match model::close_if(old(ctx)@, *node) {
                Ok(s) => r is Ok && final(ctx)@ == s,
                Err(e) => r == Err::<(), AnalyzeError>(e),
            },
    {
        match ctx.builder.exit_scope() {
            Some(BlockScope::If(ox, oy, _shift)) => {
                ctx.y_if_max = max_i32(ctx.y_if_max, ctx.builder.position.1);
                ctx.builder.position.0 = ox;
                if !any_kind(&node.children, "else_clause") {
                    ctx.builder.position.1 = sat_add(oy, 100);
                    if ctx.if_else_stack.len() > 0 {
                        let _ = ctx.if_else_stack.pop();
                    }
                }
                ctx.is_return = false;
                ctx.skip_until_brace = false;
                proof {
                    assert(model::close_if(old(ctx)@, *node) is Ok);
                    match model::close_if(old(ctx)@, *node) {
                        Ok(s) => {
                            assert(ctx@ =~= s);
                        },
                        Err(_) => {},
                    }
                }
                Ok(())
            },
            _ => Err(AnalyzeError::UnbalancedScope(crate::blocks::ConstructKind::If, node.start, node.end)),
        }
    }

    /// Else entry: see `model::enter_else`.
    pub fn handle_else(node: &SyntaxNode, ctx: &mut Context) -> (r: Result<(), AnalyzeError>)
        ensures
            match model::enter_else(old(ctx)@, *node) {
                Ok(s) => r is Ok && final(ctx)@ == s,
                Err(e) => r == Err::<(), AnalyzeError>(e),
            },
    {
        ctx.y_if_max = max_i32(ctx.y_if_max, ctx.builder.position.1);
        let rp = match ctx.if_else_stack.pop() {
            Some(p) => p,
            None => {
                return Err(AnalyzeError::UnmatchedElse(node.start, node.end));
            },
        };
        ctx.builder.position.0 = rp.0;
        ctx.builder.position.1 = rp.1;
        ctx.builder.add_block(BlockType::Else, "else".to_owned());
        if !any_kind(&node.children, "if_expression") {
            ctx.builder.enter_scope(BlockScope::Else(rp.0, rp.1), 0, 100);
        }
        proof {
            match model::enter_else(old(ctx)@, *node) {
                Ok(s) => {
                    assert(ctx@ =~= s);
                },
                Err(_) => {},
            }
        }
        Ok(())
    }

    /// Else close: see `model::close_else`.
    pub fn finish_else(node: &SyntaxNode, ctx: &mut Context) -> (r: Result<(), AnalyzeError>)
        ensures
            match model::close_else(old(ctx)@, *node) {
                Ok(s) => r is Ok && final(ctx)@ == s,
                Err(e) => r == Err::<(), AnalyzeError>(e),
            },
    {
        if any_kind(&node.children, "if_expression") {
            return Ok(());
        }
        match ctx.builder.exit_scope() {
            Some(BlockScope::Else(ox, _oy)) => {
                ctx.y_if_max = max_i32(ctx.y_if_max, ctx.builder.position.1);
                ctx.builder.position.0 = ox;
                ctx.builder.position.1 = sat_add(ctx.y_if_max, 100);
                ctx.is_return = false;
                ctx.skip_until_brace = false;
                proof {
                    assert(Ok::<StateV, AnalyzeError>(ctx@) =~= model::close_else(
                        old(ctx)@,
                        *node,
                    ));
                }
                Ok(())
            },
            _ => Err(AnalyzeError::UnbalancedScope(crate::blocks::ConstructKind::Else, node.start, node.end)),
        }
    }

    /// Loop entry: see `model::enter_loop`.
    pub fn handle_loop(node: &SyntaxNode, ctx: &mut Context)
        ensures
            final(ctx)@ == model::enter_loop(old(ctx)@, *node),
    {
        let label = build_header(&node.children);
        let ax = ctx.builder.position.0;
        let ay = ctx.builder.position.1;
        ctx.builder.add_block(BlockType::Cycle, label);
        ctx.builder.enter_scope(BlockScope::Loop(ax, ay), 100, 100);
        ctx.skip_until_brace = true;
        proof {
            assert(ctx@ =~= model::enter_loop(old(ctx)@, *node));
        }
    }

    /// Loop close: see `model::close_loop`.
    pub fn finish_loop(node: &SyntaxNode, ctx: &mut Context) -> (r: Result<(), AnalyzeError>)
        ensures
            match model::close_loop(old(ctx)@, *node) {
                Ok(s) => r is Ok && final(ctx)@ == s,
                Err(e) => r == Err::<(), AnalyzeError>(e),
            },
    {
        match ctx.builder.exit_scope() {
            Some(BlockScope::Loop(ax, ay)) => {
                let cy = ctx.builder.position.1;
                ctx.builder.position.0 = ax;
                ctx.builder.position.1 = ay;
                ctx.builder.add_block(BlockType::End, "end".to_owned());
                ctx.builder.position.1 = sat_add(cy, 100);
                ctx.skip_until_brace = false;
                proof {
                    assert(Ok::<StateV, AnalyzeError>(ctx@) =~= model::close_loop(
                        old(ctx)@,
                        *node,
                    ));
                }
                Ok(())
            },
            _ => Err(AnalyzeError::UnbalancedScope(crate::blocks::ConstructKind::Loop, node.start, node.end)),
        }
    }

    /// Match entry: see `model::enter_match`.
    pub fn handle_match(node: &SyntaxNode, ctx: &mut Context) -> (r: Result<(), AnalyzeError>)
        ensures
            match model::enter_match(old(ctx)@, *node) {
                Ok(s) => r is Ok && final(ctx)@ == s,
                Err(e) => r == Err::<(), AnalyzeError>(e),
            },
    {
        let mc = tally_kind(&node.children, "match");
        if mc >= 2 {
            return Err(AnalyzeError::DuplicateMatchHeader(node.start, node.end));
        }
        if !branch_scope_open(&ctx.builder.block_stack) {
            ctx.y_if_max = ctx.builder.position.1;
        }
        let label = build_header(&node.children);
        proof {
            crate::tree::lemma_first_kind_idx(node.children@, "match_block"@);
        }
        let arms = match locate_kind(&node.children, "match_block") {
            Some(bi) => tally_kind(&node.children[bi].children, "match_arm"),
            None => 0,
        };
        let ax = ctx.builder.position.0;
        let ay0 = ctx.builder.position.1;
        ctx.builder.add_block(BlockType::Condition, label);
        ctx.builder.enter_scope(BlockScope::Match(ax, sat_add(ay0, 100), arms), -300, 100);
        ctx.skip_until_brace = true;
        proof {
            match model::enter_match(old(ctx)@, *node) {
                Ok(s) => {
                    assert(ctx@ =~= s);
                },
                Err(_) => {},
            }
        }
        Ok(())
    }

    /// Match close: see `model::close_match`.
    pub fn finish_match(node: &SyntaxNode, ctx: &mut Context) -> (r: Result<(), AnalyzeError>)
        ensures
            match model::close_match(old(ctx)@, *node) {
                Ok(s) => r is Ok && final(ctx)@ == s,
                Err(e) => r == Err::<(), AnalyzeError>(e),
            },
    {
        match ctx.builder.exit_scope() {
            Some(BlockScope::Match(ax, _ay, _rem)) => {
                ctx.y_if_max = max_i32(ctx.y_if_max, ctx.builder.position.1);
                let ey = sat_add(ctx.y_if_max, 50);
                ctx.builder.position.0 = ax;
                ctx.builder.position.1 = ey;
                ctx.builder.add_block(BlockType::End, "match".to_owned());
                ctx.builder.position.1 = sat_add(ey, 100);
                ctx.skip_until_brace = false;
                proof {
                    assert(Ok::<StateV, AnalyzeError>(ctx@) =~= model::close_match(
                        old(ctx)@,
                        *node,
                    ));
                }
                Ok(())
            },
            _ => Err(AnalyzeError::UnbalancedScope(crate::blocks::ConstructKind::Match, node.start, node.end)),
        }
    }

    /// One match arm: see `model::step_arm`.
    pub fn handle_match_arm(node: &SyntaxNode, ctx: &mut Context) -> (r: Result<(), AnalyzeError>)
        ensures
            match model::step_arm(old(ctx)@, *node) {
                Ok(s) => r is Ok && final(ctx)@ == s,
                Err(e) => r == Err::<(), AnalyzeError>(e),
            },
    {
        match ctx.builder.exit_scope() {
            Some(BlockScope::Match(ax, ay, rem)) => {
                let x1 = sat_add(ctx.builder.position.0, 300);
                let kind = if rem == 1 {
                    BlockType::EndMatchArm
                } else {
                    BlockType::Action
                };
                ctx.builder.position.0 = x1;
                ctx.builder.position.1 = ay;
                ctx.builder.add_block(kind, build_arm_label(node));
                let rem1 = if rem > 0 {
                    rem - 1
                } else {
                    0
                };
                ctx.builder.block_stack.push(BlockScope::Match(ax, ay, rem1));
                ctx.y_if_max = max_i32(ctx.y_if_max, ay);
                ctx.builder.position.1 = sat_add(ay, 100);
                proof {
                    let ghost nsc = BlockScope::Match(ax, ay, rem1)@;
                    assert(ctx@.stack =~= old(ctx)@.stack.drop_last().push(nsc));
                    assert(old(ctx)@.stack.update(old(ctx)@.stack.len() - 1, nsc)
                        =~= old(ctx)@.stack.drop_last().push(nsc));
                    match model::step_arm(old(ctx)@, *node) {
                        Ok(s) => {
                            assert(ctx@ =~= s);
                        },
                        Err(_) => {},
                    }
                }
                Ok(())
            },
            _ => Err(AnalyzeError::MisplacedMatchArm(node.start, node.end)),
        }
    }

    /// A `return`: see `model::step_return`.
    pub fn handle_return(node: &SyntaxNode, ctx: &mut Context)
        ensures
            final(ctx)@ == model::step_return(old(ctx)@, *node),
    {
        let label = build_ret_label(node);
        ctx.builder.add_block(BlockType::End, label);
        ctx.builder.position.1 = sat_add(ctx.builder.position.1, 100);
        ctx.is_return = true;
        proof {
            assert(ctx@ =~= model::step_return(old(ctx)@, *node));
        }
    }

    /// A macro invocation: see `model::step_macro`.
    pub fn handle_macro(node: &SyntaxNode, ctx: &mut Context)
        ensures
            final(ctx)@ == model::step_macro(old(ctx)@, *node),
    {
        let built = build_macro(node);
        ctx.builder.add_block(built.0, built.1);
        ctx.builder.position.1 = sat_add(ctx.builder.position.1, 100);
        proof {
            assert(ctx@ =~= model::step_macro(old(ctx)@, *node));
        }
    }

    /// The generic fallback: see `model::step_generic`.
    pub fn handle_generic(&self, node: &SyntaxNode, ctx: &mut Context)
        ensures
            final(ctx)@ == model::step_generic(old(ctx)@, *node),
    {
        let cv = chars_vec(node.text.as_str());
        if !text_is_blank(&cv) {
            ctx.builder.add_block(BlockType::Action, node.text.clone());
            ctx.builder.position.1 = sat_add(ctx.builder.position.1, 50);
            proof {
                assert(ctx@ =~= model::step_generic(old(ctx)@, *node));
            }
        }
    }

    /// One preorder visit, exactly as `model::step_node` describes it.
    pub fn process_node(&self, node: &SyntaxNode, ctx: &mut Context) -> (r: Result<
        (),
        AnalyzeError,
    >)
        ensures
            match r {
                Ok(_) => model::step_node(old(ctx)@, *node) == Ok::<StateV, AnalyzeError>(
                    final(ctx)@,
                ),
                Err(e) => model::step_node(old(ctx)@, *node) == Err::<StateV, AnalyzeError>(e),
            },
        decreases *node, 1nat,
    {
        if ctx.skip_until_brace && !is_body_node(node) {
            return Ok(());
        }
        ctx.skip_until_brace = false;
        match classify_node(node) {
            NodeClass::Ignored => Ok(()),
            NodeClass::Transparent => self.process_children(node, ctx),
            NodeClass::Function => {
                Self::handle_function(node, ctx);
                match self.process_children(node, ctx) {
                    Ok(_) => Self::finish_function(node, ctx),
                    Err(e) => Err(e),
                }
            },
            NodeClass::If => {
                Self::handle_if(node, ctx);
                match self.process_children(node, ctx) {
                    Ok(_) => Self::finish_if(node, ctx),
                    Err(e) => Err(e),
                }
            },
            NodeClass::Else => match Self::handle_else(node, ctx) {
                Ok(_) => match self.process_children(node, ctx) {
                    Ok(_) => Self::finish_else(node, ctx),
                    Err(e) => Err(e),
                },
                Err(e) => Err(e),
            },
            NodeClass::Loop => {
                Self::handle_loop(node, ctx);
                match self.process_children(node, ctx) {
                    Ok(_) => Self::finish_loop(node, ctx),
                    Err(e) => Err(e),
                }
            },
            NodeClass::Match => match Self::handle_match(node, ctx) {
                Ok(_) => match self.process_children(node, ctx) {
                    Ok(_) => Self::finish_match(node, ctx),
                    Err(e) => Err(e),
                },
                Err(e) => Err(e),
            },
            NodeClass::Arm => Self::handle_match_arm(node, ctx),
            NodeClass::Return => {
                Self::handle_return(node, ctx);
                Ok(())
            },
            NodeClass::Macro => {
                Self::handle_macro(node, ctx);
                Ok(())
            },
            NodeClass::Ident => Ok(()),
            NodeClass::Generic => {
                self.handle_generic(node, ctx);
                Ok(())
            },
        }
    }

    /// The children of one node, left to right; the first failure aborts.
    pub fn process_children(&self, node: &SyntaxNode, ctx: &mut Context) -> (r: Result<
        (),
        AnalyzeError,
    >)
        ensures
            match r {
                Ok(_) => model::step_children(old(ctx)@, node.children@) == Ok::<
                    StateV,
                    AnalyzeError,
                >(final(ctx)@),
                Err(e) => model::step_children(old(ctx)@, node.children@) == Err::<
                    StateV,
                    AnalyzeError,
                >(e),
            },
        decreases *node, 0nat,
    {
        let ghost s0 = ctx@;
        let ghost cs = node.children@;
        proof {
            assert(cs.skip(0) =~= cs);
        }
        let n = node.children.len();
        let mut i: usize = 0;
        while i < n
            invariant
                s0 == old(ctx)@,
                n == node.children@.len(),
                cs == node.children@,
                i <= n,
                model::step_children(s0, cs) == model::step_children(ctx@, cs.skip(i as int)),
            decreases n - i,
        {
            proof {
                model::lemma_step_children_split(ctx@, cs, i as int);
            }
            match self.process_node(&node.children[i], ctx) {
                Ok(_) => {},
                Err(e) => {
                    return Err(e);
                },
            }
            i = i + 1;
        }
        proof {
            assert(cs.skip(n as int) =~= Seq::<SyntaxNode>::empty());
        }
        Ok(())
    }
}

/// Converts one syntax tree into its Block Sequence: a full walk from a
/// fresh layout context.  Succeeds exactly when the model's walk does, with
/// exactly its blocks; fails with exactly the model's error otherwise.
pub fn analyze_tree(root: &SyntaxNode) -> (r: Result<Vec<CodeBlock>, AnalyzeError>)
    ensures
        match r {
            Ok(blocks) => model::tree_outcome(*root) == Ok::<Seq<crate::blocks::BlockV>, AnalyzeError>(
                crate::blocks::blocks_view(blocks@),
            ),
            Err(e) => model::tree_outcome(*root) == Err::<Seq<crate::blocks::BlockV>, AnalyzeError>(
                e,
            ),
        },
{
    let processor = AstProcessor::new();
    let mut ctx = Context::new();
    match processor.process_node(root, &mut ctx) {
        Ok(_) => Ok(ctx.builder.blocks),
        Err(e) => Err(e),
    }
}

} // verus!
