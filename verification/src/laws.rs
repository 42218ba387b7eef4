//! The walk's structural laws, proved over the model.
//!
//! These are the properties a consumer may rely on for every input tree:
//! scope discipline (nothing leaks), append-only output, back-edge anchor
//! correctness, and determinism of a whole conversion.

use vstd::prelude::*;
use vstd::seq_lib::*;

use crate::blocks::{BlockType, BlockV};
use crate::builder::ScopeV;
use crate::context::{init_state, StateV};
use crate::model::{
    classify, enter_else, enter_function, enter_if, enter_loop, enter_match, header_label,
    is_body_kind, step_arm, step_children, step_node, tree_outcome, NodeClass,
};
use crate::tree::SyntaxNode;

verus! {

/// Two scopes describe the same open construct; a match's arm countdown
/// may have advanced while its anchor stays put.
pub open spec fn same_construct(a: ScopeV, b: ScopeV) -> bool {
    a == b || (a is Match && b is Match && a->Match_ax == b->Match_ax && a->Match_ay
        == b->Match_ay)
}

/// How a walk may leave a scope stack it found: every outer scope intact,
/// and the innermost one at most advanced in its arm countdown.
pub open spec fn stack_similar(a: Seq<ScopeV>, b: Seq<ScopeV>) -> bool {
    &&& a.len() == b.len()
    &&& forall|i: int| 0 <= i < a.len() - 1 ==> a[i] == b[i]
    &&& a.len() > 0 ==> same_construct(a.last(), b.last())
}

/// `stack_similar` composes.
pub proof fn lemma_similar_trans(a: Seq<ScopeV>, b: Seq<ScopeV>, c: Seq<ScopeV>)
    requires
        stack_similar(a, b),
        stack_similar(b, c),
    ensures
        stack_similar(a, c),
{
}

/// Scope discipline for one node: a visit that completes leaves every
/// scope it found — the constructs it opened, it closed.
pub proof fn lemma_step_node_stack(s: StateV, n: SyntaxNode)
    ensures
        step_node(s, n) matches Ok(s2) ==> stack_similar(s.stack, s2.stack),
    decreases n, 1nat,
{
    let k = n.kind@;
    if s.skip && !is_body_kind(k) {
    } else {
        let s0 = StateV { skip: false, ..s };
        match classify(k) {
            NodeClass::Ignored => {},
            NodeClass::Transparent => {
                lemma_step_children_stack(s0, n.children@);
            },
            NodeClass::Function => {
                let s1 = enter_function(s0, n);
                lemma_step_children_stack(s1, n.children@);
                match step_children(s1, n.children@) {
                    Ok(s2a) => {
                        if s2a.stack.len() > 0 && s2a.stack.last() is Function {
                            assert(s2a.stack.drop_last() =~= s.stack);
                        }
                    },
                    Err(_) => {},
                }
            },
            NodeClass::If => {
                let s1 = enter_if(s0, n);
                lemma_step_children_stack(s1, n.children@);
                match step_children(s1, n.children@) {
                    Ok(s2a) => {
                        if s2a.stack.len() > 0 && s2a.stack.last() is If {
                            assert(s2a.stack.drop_last() =~= s.stack);
                        }
                    },
                    Err(_) => {},
                }
            },
            NodeClass::Else => {
                match enter_else(s0, n) {
                    Ok(s1) => {
                        lemma_step_children_stack(s1, n.children@);
                        if crate::tree::has_kind(n.children@, "if_expression"@) {
                            // No scope of its own: the children's similarity
                            // carries through unchanged.
                        } else {
                            match step_children(s1, n.children@) {
                                Ok(s2a) => {
                                    if s2a.stack.len() > 0 && s2a.stack.last() is Else {
                                        assert(s2a.stack.drop_last() =~= s.stack);
                                    }
                                },
                                Err(_) => {},
                            }
                        }
                    },
                    Err(_) => {},
                }
            },
            NodeClass::Loop => {
                let s1 = enter_loop(s0, n);
                lemma_step_children_stack(s1, n.children@);
                match step_children(s1, n.children@) {
                    Ok(s2a) => {
                        if s2a.stack.len() > 0 && s2a.stack.last() is Loop {
                            assert(s2a.stack.drop_last() =~= s.stack);
                        }
                    },
                    Err(_) => {},
                }
            },
            NodeClass::Match => {
                match enter_match(s0, n) {
                    Ok(s1) => {
                        lemma_step_children_stack(s1, n.children@);
                        match step_children(s1, n.children@) {
                            Ok(s2a) => {
                                if s2a.stack.len() > 0 && s2a.stack.last() is Match {
                                    assert(s2a.stack.drop_last() =~= s.stack);
                                }
                            },
                            Err(_) => {},
                        }
                    },
                    Err(_) => {},
                }
            },
            NodeClass::Arm => {
                match step_arm(s0, n) {
                    Ok(s2) => {
                        assert(stack_similar(s.stack, s2.stack));
                    },
                    Err(_) => {},
                }
            },
            NodeClass::Return => {},
            NodeClass::Macro => {},
            NodeClass::Ident => {},
            NodeClass::Generic => {},
        }
    }
}

/// Scope discipline over a child list.
pub proof fn lemma_step_children_stack(s: StateV, cs: Seq<SyntaxNode>)
    ensures
        step_children(s, cs) matches Ok(s2) ==> stack_similar(s.stack, s2.stack),
    decreases cs, 0nat,
{
    if cs.len() == 0 {
    } else {
        lemma_step_node_stack(s, cs[0]);
        match step_node(s, cs[0]) {
            Ok(s1) => {
                lemma_step_children_stack(s1, cs.drop_first());
                match step_children(s1, cs.drop_first()) {
                    Ok(s2) => {
                        lemma_similar_trans(s.stack, s1.stack, s2.stack);
                    },
                    Err(_) => {},
                }
            },
            Err(_) => {},
        }
    }
}

/// LAW — scope discipline: a whole conversion starts with no open scopes
/// and, when it completes, ends with none.  No construct leaks a scope;
/// an unbalanced input fails instead of completing.
pub proof fn lemma_walk_leaves_no_scope(root: SyntaxNode)
    ensures
        step_node(init_state(), root) matches Ok(s) ==> s.stack == Seq::<ScopeV>::empty(),
{
    lemma_step_node_stack(init_state(), root);
    match step_node(init_state(), root) {
        Ok(s) => {
            assert(s.stack =~= Seq::<ScopeV>::empty());
        },
        Err(_) => {},
    }
}

/// A sequence is a prefix of itself extended by one element.
pub proof fn lemma_prefix_push(a: Seq<BlockV>, x: BlockV)
    ensures
        a.is_prefix_of(a.push(x)),
{
    assert(a =~= a.push(x).subrange(0, a.len() as int));
}

/// Being a prefix composes.
pub proof fn lemma_prefix_trans(a: Seq<BlockV>, b: Seq<BlockV>, c: Seq<BlockV>)
    requires
        a.is_prefix_of(b),
        b.is_prefix_of(c),
    ensures
        a.is_prefix_of(c),
{
    assert(a =~= c.subrange(0, a.len() as int)) by {
        assert(forall|i: int| 0 <= i < a.len() ==> a[i] == #[trigger] b[i] && b[i] == c[i]);
    }
}

/// Append-only output for one node: nothing already emitted is revised or
/// dropped; a visit only adds blocks after what is there.
pub proof fn lemma_step_node_appends(s: StateV, n: SyntaxNode)
    ensures
        step_node(s, n) matches Ok(s2) ==> s.blocks.is_prefix_of(s2.blocks),
    decreases n, 3nat,
{
    let k = n.kind@;
    if s.skip && !is_body_kind(k) {
        match step_node(s, n) {
            Ok(s2) => {
                assert(s.blocks =~= s2.blocks.subrange(0, s.blocks.len() as int));
            },
            Err(_) => {},
        }
    } else {
        let s0 = StateV { skip: false, ..s };
        match classify(k) {
            NodeClass::Ignored => {
                assert(s.blocks =~= s0.blocks.subrange(0, s.blocks.len() as int));
            },
            NodeClass::Transparent => {
                lemma_step_children_appends(s0, n.children@);
            },
            NodeClass::Function => {
                let s1 = enter_function(s0, n);
                lemma_prefix_push(s.blocks, s1.blocks.last());
                assert(s.blocks.is_prefix_of(s1.blocks)) by {
                    assert(s1.blocks =~= s.blocks.push(s1.blocks.last()));
                }
                finish_appends(s, s1, n);
            },
            NodeClass::If => {
                let s1 = enter_if(s0, n);
                lemma_prefix_push(s.blocks, s1.blocks.last());
                assert(s.blocks.is_prefix_of(s1.blocks)) by {
                    assert(s1.blocks =~= s.blocks.push(s1.blocks.last()));
                }
                finish_appends(s, s1, n);
            },
            NodeClass::Else => {
                match enter_else(s0, n) {
                    Ok(s1) => {
                        lemma_prefix_push(s.blocks, s1.blocks.last());
                        assert(s.blocks.is_prefix_of(s1.blocks)) by {
                            assert(s1.blocks =~= s.blocks.push(s1.blocks.last()));
                        }
                        finish_appends(s, s1, n);
                    },
                    Err(_) => {},
                }
            },
            NodeClass::Loop => {
                let s1 = enter_loop(s0, n);
                lemma_prefix_push(s.blocks, s1.blocks.last());
                assert(s.blocks.is_prefix_of(s1.blocks)) by {
                    assert(s1.blocks =~= s.blocks.push(s1.blocks.last()));
                }
                finish_appends(s, s1, n);
            },
            NodeClass::Match => {
                match enter_match(s0, n) {
                    Ok(s1) => {
                        lemma_prefix_push(s.blocks, s1.blocks.last());
                        assert(s.blocks.is_prefix_of(s1.blocks)) by {
                            assert(s1.blocks =~= s.blocks.push(s1.blocks.last()));
                        }
                        finish_appends(s, s1, n);
                    },
                    Err(_) => {},
                }
            },
            NodeClass::Arm => {
                match step_node(s, n) {
                    Ok(s2) => {
                        assert(s.blocks =~= s2.blocks.subrange(0, s.blocks.len() as int));
                    },
                    Err(_) => {},
                }
            },
            NodeClass::Return => {
                match step_node(s, n) {
                    Ok(s2) => {
                        assert(s.blocks =~= s2.blocks.subrange(0, s.blocks.len() as int));
                    },
                    Err(_) => {},
                }
            },
            NodeClass::Macro => {
                match step_node(s, n) {
                    Ok(s2) => {
                        assert(s.blocks =~= s2.blocks.subrange(0, s.blocks.len() as int));
                    },
                    Err(_) => {},
                }
            },
            NodeClass::Ident => {},
            NodeClass::Generic => {
                match step_node(s, n) {
                    Ok(s2) => {
                        assert(s.blocks =~= s2.blocks.subrange(0, s.blocks.len() as int));
                    },
                    Err(_) => {},
                }
            },
        }
    }
}

/// The close of a scoped construct appends at most one block: carries the
/// prefix property over the whole construct.
proof fn finish_appends(s: StateV, s1: StateV, n: SyntaxNode)
    requires
        s.blocks.is_prefix_of(s1.blocks),
    ensures
        step_children(s1, n.children@) matches Ok(s2a) ==> forall|f: StateV|
            (f.blocks == s2a.blocks || exists|b: BlockV| f.blocks == #[trigger] s2a.blocks.push(b))
                ==> s.blocks.is_prefix_of(#[trigger] f.blocks),
    decreases n, 2nat,
{
    lemma_step_children_appends(s1, n.children@);
    match step_children(s1, n.children@) {
        Ok(s2a) => {
            lemma_prefix_trans(s.blocks, s1.blocks, s2a.blocks);
            assert forall|f: StateV|
                (f.blocks == s2a.blocks || exists|b: BlockV|
                    f.blocks == #[trigger] s2a.blocks.push(b)) implies s.blocks.is_prefix_of(
                #[trigger] f.blocks,
            ) by {
                if f.blocks == s2a.blocks {
                } else {
                    let b = choose|b: BlockV| f.blocks == #[trigger] s2a.blocks.push(b);
                    lemma_prefix_push(s2a.blocks, b);
                    lemma_prefix_trans(s.blocks, s2a.blocks, s2a.blocks.push(b));
                }
            }
        },
        Err(_) => {},
    }
}

/// Append-only output over a child list.
pub proof fn lemma_step_children_appends(s: StateV, cs: Seq<SyntaxNode>)
    ensures
        step_children(s, cs) matches Ok(s2) ==> s.blocks.is_prefix_of(s2.blocks),
    decreases cs, 0nat,
{
    if cs.len() == 0 {
        assert(s.blocks =~= s.blocks.subrange(0, s.blocks.len() as int));
    } else {
        lemma_step_node_appends(s, cs[0]);
        match step_node(s, cs[0]) {
            Ok(s1) => {
                lemma_step_children_appends(s1, cs.drop_first());
                match step_children(s1, cs.drop_first()) {
                    Ok(s2) => {
                        lemma_prefix_trans(s.blocks, s1.blocks, s2.blocks);
                    },
                    Err(_) => {},
                }
            },
            Err(_) => {},
        }
    }
}

/// LAW — back-edge anchor, over any walk state: inside a suppressed
/// construct header a loop node is not processed at all; anywhere else, a
/// loop construct that completes emits its `Cycle` block at the pre-entry
/// cursor and closes with exactly one matching `End` block whose recorded
/// coordinates equal the `Cycle` block's own.
pub proof fn lemma_loop_anchor(s: StateV, n: SyntaxNode)
    requires
        classify(n.kind@) is Loop,
    ensures
        s.skip ==> step_node(s, n) == Ok::<StateV, crate::blocks::AnalyzeError>(s),
        !s.skip ==> (step_node(s, n) matches Ok(s2) ==> {
            &&& s2.blocks.len() >= s.blocks.len() + 2
            &&& s2.blocks[s.blocks.len() as int] == (BlockV {
                kind: BlockType::Cycle,
                text: header_label(n.children@),
                x: s.x,
                y: s.y,
            })
            &&& s2.blocks.last() == (BlockV { kind: BlockType::End, text: "end"@, x: s.x, y: s.y })
        }),
{
    // A loop kind is not a body kind: the body kinds are transparent, and
    // a classified loop is not.
    assert(!is_body_kind(n.kind@));
    if s.skip {
    } else {
        let s0 = StateV { skip: false, ..s };
        let s1 = enter_loop(s0, n);
        lemma_step_node_stack(s, n);
        lemma_step_children_stack(s1, n.children@);
        lemma_step_children_appends(s1, n.children@);
        match step_children(s1, n.children@) {
            Ok(s2a) => {
                if s2a.stack.len() > 0 && s2a.stack.last() is Loop {
                    assert(s2a.blocks[s.blocks.len() as int] == s1.blocks[s.blocks.len() as int]);
                    assert(s2a.stack.last() == s1.stack.last());
                }
            },
            Err(_) => {},
        }
    }
}

/// LAW — source-level idempotence: one source text has one analysis
/// outcome.  Converting the same text twice yields identical block
/// sequences, and retrying a conversion that failed deterministically
/// fails again with the same error — the analyzer owns no hidden state
/// between runs.
pub proof fn lemma_analysis_deterministic(s: Seq<char>, a: Seq<BlockV>, b: Seq<BlockV>)
    requires
        crate::analyzer::source_outcome(s) == Ok::<Seq<BlockV>, crate::blocks::AnalyzeError>(a),
        crate::analyzer::source_outcome(s) == Ok::<Seq<BlockV>, crate::blocks::AnalyzeError>(b),
    ensures
        a == b,
{
}

/// LAW — idempotence: one tree has one outcome.  Two conversions that
/// complete yield identical block sequences; the walk owns no hidden
/// state between runs.
pub proof fn lemma_conversion_deterministic(root: SyntaxNode, a: Seq<BlockV>, b: Seq<BlockV>)
    requires
        tree_outcome(root) == Ok::<Seq<BlockV>, crate::blocks::AnalyzeError>(a),
        tree_outcome(root) == Ok::<Seq<BlockV>, crate::blocks::AnalyzeError>(b),
    ensures
        a == b,
{
}

/// How many arm-class children a list holds.
pub open spec fn count_arms(cs: Seq<SyntaxNode>) -> nat
    decreases cs,
{
    if cs.len() == 0 {
        0
    } else {
        (if classify(cs[0].kind@) is Arm {
            1nat
        } else {
            0nat
        }) + count_arms(cs.drop_first())
    }
}

/// `count_arms` never exceeds the list's length.
pub proof fn lemma_count_arms_bound(cs: Seq<SyntaxNode>)
    ensures
        count_arms(cs) <= cs.len(),
    decreases cs,
{
    if cs.len() > 0 {
        lemma_count_arms_bound(cs.drop_first());
    }
}

/// The arm row of one match body: every arm appends one marker on the arm
/// row, three steps right of its predecessor, and the arm that exhausts
/// the countdown is the `EndMatchArm` marker.  Stated away from the grid's
/// saturating edge.
proof fn lemma_match_body(s: StateV, cs: Seq<SyntaxNode>, ax: int, ay: int, r: nat)
    requires
        !s.skip,
        s.stack.len() > 0,
        s.stack.last() == (ScopeV::Match { ax: ax, ay: ay, remaining: r }),
        forall|j: int|
            0 <= j < cs.len() ==> (classify(#[trigger] cs[j].kind@) is Ignored || classify(
                cs[j].kind@,
            ) is Arm),
        r == count_arms(cs),
        cs.len() <= 1000,
        -2000000 <= s.x,
        s.x + 300 * cs.len() <= 2000000,
        -2000000 <= ay <= 2000000,
    ensures
        step_children(s, cs) is Ok,
        ({
            let s2 = step_children(s, cs)->Ok_0;
            &&& s2.blocks.len() == s.blocks.len() + count_arms(cs)
            &&& forall|idx: int|
                s.blocks.len() <= idx < s2.blocks.len() ==> (#[trigger] s2.blocks[idx]).y == ay
                    && s2.blocks[idx].x == s.x + 300 * (idx - s.blocks.len() + 1)
                    && s2.blocks[idx].kind == (if idx == s2.blocks.len() - 1 {
                    BlockType::EndMatchArm
                } else {
                    BlockType::Action
                })
            &&& forall|idx: int| 0 <= idx < s.blocks.len() ==> s2.blocks[idx] == s.blocks[idx]
            &&& s2.x == s.x + 300 * count_arms(cs)
            &&& s2.y == (if count_arms(cs) == 0 {
                s.y
            } else {
                ay + 100
            })
            &&& s2.ceiling == (if count_arms(cs) == 0 {
                s.ceiling
            } else {
                crate::model::max2(s.ceiling, ay)
            })
            &&& s2.stack == s.stack.update(
                s.stack.len() - 1,
                ScopeV::Match { ax: ax, ay: ay, remaining: 0 },
            )
            &&& s2.rps == s.rps
            &&& s2.is_ret == s.is_ret
            &&& !s2.skip
        }),
    decreases cs,
{
    lemma_count_arms_bound(cs);
    if cs.len() == 0 {
        assert(r == 0);
        assert(s.stack.update(s.stack.len() - 1, ScopeV::Match { ax: ax, ay: ay, remaining: 0 })
            =~= s.stack);
    } else {
        let n0 = cs[0];
        let rest = cs.drop_first();
        assert(forall|j: int|
            0 <= j < rest.len() ==> (classify(#[trigger] rest[j].kind@) is Ignored || classify(
                rest[j].kind@,
            ) is Arm)) by {
            assert(forall|j: int| 0 <= j < rest.len() ==> rest[j] == cs[j + 1]);
        }
        if classify(n0.kind@) is Ignored {
            let s0 = StateV { skip: false, ..s };
            assert(s0 =~= s);
            assert(step_node(s, n0) == Ok::<StateV, crate::blocks::AnalyzeError>(s0));
            lemma_match_body(s, rest, ax, ay, r);
            assert(step_children(s, cs) == step_children(s, rest));
        } else {
            assert(classify(n0.kind@) is Arm);
            assert(r >= 1);
            let s0 = StateV { skip: false, ..s };
            assert(s0 =~= s);
            let marker = BlockV {
                kind: if r == 1 {
                    BlockType::EndMatchArm
                } else {
                    BlockType::Action
                },
                text: crate::model::arm_label(n0),
                x: s.x + 300,
                y: ay,
            };
            let sa = step_arm(s0, n0)->Ok_0;
            assert(step_node(s, n0) == step_arm(s0, n0));
            assert(sa.x == s.x + 300);
            assert(sa.blocks == s.blocks.push(marker));
            assert(sa.stack.last() == (ScopeV::Match {
                ax: ax,
                ay: ay,
                remaining: (r - 1) as nat,
            })) by {
                assert(sa.stack == s.stack.update(s.stack.len() - 1, ScopeV::Match {
                    ax: ax,
                    ay: ay,
                    remaining: (r - 1) as nat,
                }));
            }
            assert(count_arms(rest) == r - 1);
            lemma_match_body(sa, rest, ax, ay, (r - 1) as nat);
            let s2 = step_children(sa, rest)->Ok_0;
            assert(step_children(s, cs) == step_children(sa, rest));
            // The whole stack conclusion.
            assert(s2.stack =~= s.stack.update(s.stack.len() - 1, ScopeV::Match {
                ax: ax,
                ay: ay,
                remaining: 0,
            })) by {
                assert(s2.stack =~= sa.stack.update(sa.stack.len() - 1, ScopeV::Match {
                    ax: ax,
                    ay: ay,
                    remaining: 0,
                }));
            }
            // The marker rows: the one just emitted, then the rest's.
            assert(s2.blocks.len() == s.blocks.len() + count_arms(cs));
            assert forall|idx: int|
                s.blocks.len() <= idx < s2.blocks.len() implies (#[trigger] s2.blocks[idx]).y
                    == ay && s2.blocks[idx].x == s.x + 300 * (idx - s.blocks.len() + 1)
                    && s2.blocks[idx].kind == (if idx == s2.blocks.len() - 1 {
                    BlockType::EndMatchArm
                } else {
                    BlockType::Action
                }) by {
                if idx == s.blocks.len() {
                    assert(s2.blocks[idx] == sa.blocks[idx]);
                    assert(sa.blocks[idx] == marker);
                    if r == 1 {
                        assert(count_arms(rest) == 0);
                        assert(idx == s2.blocks.len() - 1);
                    } else {
                        assert(count_arms(rest) == r - 1 >= 1);
                        assert(idx < s2.blocks.len() - 1);
                    }
                } else {
                    assert(sa.blocks.len() <= idx < s2.blocks.len());
                    assert(s2.blocks[idx].x == sa.x + 300 * (idx - sa.blocks.len() + 1));
                }
            }
            // The final cursor and ceiling.
            if count_arms(rest) == 0 {
                assert(s2.x == sa.x == s.x + 300 * count_arms(cs));
                assert(s2.y == sa.y == ay + 100);
                assert(s2.ceiling == sa.ceiling == crate::model::max2(s.ceiling, ay));
            } else {
                assert(s2.x == sa.x + 300 * count_arms(rest));
                assert(s2.ceiling == crate::model::max2(crate::model::max2(s.ceiling, ay), ay));
            }
        }
    }
}

/// LAW — match arms, over any walk state: inside a suppressed construct
/// header a match node is not processed at all.  Anywhere else, a match
/// whose header holds at most one `match` keyword token and whose body
/// holds nothing but punctuation and arms always completes, with exactly
/// one leading `Condition`, one marker per arm — all on one row, three
/// steps apart, the last one the `EndMatchArm` marker — and exactly one
/// trailing `End` labeled for the match at the anchor column, half a step
/// below the deepest row reached.  Stated away from the grid's saturating
/// edge.
pub proof fn lemma_match_shape(s: StateV, n: SyntaxNode)
    requires
        classify(n.kind@) is Match,
        crate::tree::count_kind(n.children@, "match"@) <= 1,
        n.children@.len() >= 1,
        n.children@.last().kind@ == "match_block"@,
        forall|i: int|
            0 <= i < n.children@.len() - 1 ==> !is_body_kind(#[trigger] n.children@[i].kind@),
        forall|j: int|
            0 <= j < n.children@.last().children@.len() ==> (classify(
                #[trigger] n.children@.last().children@[j].kind@,
            ) is Ignored || classify(n.children@.last().children@[j].kind@) is Arm),
        n.children@.last().children@.len() <= 1000,
        crate::tree::count_kind(n.children@.last().children@, "match_arm"@) == count_arms(
            n.children@.last().children@,
        ),
        -1000000 <= s.x <= 1000000,
        -1000000 <= s.y <= 1000000,
        -1000000 <= s.ceiling <= 1000000,
    ensures
        s.skip ==> step_node(s, n) == Ok::<StateV, crate::blocks::AnalyzeError>(s),
        !s.skip ==> step_node(s, n) is Ok,
        !s.skip ==> ({
            let s2 = step_node(s, n)->Ok_0;
            let nn = count_arms(n.children@.last().children@);
            let ay = s.y + 100;
            let c0 = if crate::model::has_branch_scope(s.stack) {
                s.ceiling
            } else {
                s.y
            };
            let ey = if nn == 0 {
                crate::model::max2(c0, ay) + 50
            } else {
                crate::model::max2(c0, ay + 100) + 50
            };
            &&& s2.blocks.len() == s.blocks.len() + nn + 2
            &&& s2.blocks[s.blocks.len() as int] == (BlockV {
                kind: BlockType::Condition,
                text: header_label(n.children@),
                x: s.x,
                y: s.y,
            })
            &&& forall|i: int|
                0 <= i < nn ==> (#[trigger] s2.blocks[s.blocks.len() + 1 + i]).y == ay
                    && s2.blocks[s.blocks.len() + 1 + i].x == s.x + 300 * i
                    && s2.blocks[s.blocks.len() + 1 + i].kind == (if i == nn - 1 {
                    BlockType::EndMatchArm
                } else {
                    BlockType::Action
                })
            &&& s2.blocks.last() == (BlockV {
                kind: BlockType::End,
                text: "match"@,
                x: s.x,
                y: ey,
            })
            &&& s2.x == s.x
            &&& s2.y == ey + 100
        }),
{
    assert(!is_body_kind(n.kind@));
    if s.skip {
        return ;
    }
    let s0 = StateV { skip: false, ..s };
    let body = n.children@.last();
    let nn = count_arms(body.children@);
    lemma_count_arms_bound(body.children@);
    crate::tree::lemma_first_kind_idx(n.children@, "match_block"@);
    assert(crate::tree::has_kind(n.children@, "match_block"@));
    let bi = crate::tree::first_kind_idx(n.children@, "match_block"@);
    assert(bi == n.children@.len() - 1) by {
        if bi < n.children@.len() - 1 {
            assert(is_body_kind(n.children@[bi].kind@));
        }
    }
    let s1 = enter_match(s0, n)->Ok_0;
    assert(crate::model::arm_count(n) == nn);
    // The header children before the body are suppressed.
    lemma_skipped_prefix(s1, n.children@, 0);
    assert(n.children@.skip(0) =~= n.children@);
    assert(step_children(s1, n.children@) == step_children(s1, n.children@.skip(
        n.children@.len() - 1,
    )));
    crate::model::lemma_step_children_split(s1, n.children@, n.children@.len() - 1);
    assert(n.children@.skip(n.children@.len() - 1)[0] == body);
    // The body block clears the suppression and walks the arm row.
    let sb = StateV { skip: false, ..s1 };
    crate::model::lemma_match_block_is_transparent();
    assert(step_node(s1, body) == step_children(sb, body.children@));
    lemma_match_body(sb, body.children@, s.x, s.y + 100, nn);
    let s2a = step_children(sb, body.children@)->Ok_0;
    assert(n.children@.skip(n.children@.len() as int - 1).drop_first()
        =~= Seq::<SyntaxNode>::empty());
    assert(step_children(s1, n.children@)
        == Ok::<StateV, crate::blocks::AnalyzeError>(s2a));
    assert(s2a.stack.last() == (ScopeV::Match { ax: s.x, ay: s.y + 100, remaining: 0 }));
    let s2 = crate::model::close_match(s2a, n)->Ok_0;
    assert(step_node(s, n) == Ok::<StateV, crate::blocks::AnalyzeError>(s2));
    let ghost c0 = if crate::model::has_branch_scope(s.stack) {
        s.ceiling
    } else {
        s.y
    };
    assert(s2.blocks.last() == (BlockV {
        kind: BlockType::End,
        text: "match"@,
        x: s.x,
        y: if nn == 0 {
            crate::model::max2(c0, s.y + 100) + 50
        } else {
            crate::model::max2(c0, s.y + 200) + 50
        },
    }));
}

/// A suppressed header: while the skip flag is set, children before the
/// body block change nothing.
proof fn lemma_skipped_prefix(s: StateV, cs: Seq<SyntaxNode>, i: int)
    requires
        s.skip,
        0 <= i <= cs.len(),
        cs.len() >= 1,
        forall|j: int| 0 <= j < cs.len() - 1 ==> !is_body_kind(#[trigger] cs[j].kind@),
    ensures
        step_children(s, cs.skip(i)) == (if i < cs.len() {
            step_children(s, cs.skip(cs.len() - 1))
        } else {
            step_children(s, cs.skip(i))
        }),
    decreases cs.len() - i,
{
    if i < cs.len() - 1 {
        crate::model::lemma_step_children_split(s, cs, i);
        assert(step_node(s, cs[i]) == Ok::<StateV, crate::blocks::AnalyzeError>(s));
        lemma_skipped_prefix(s, cs, i + 1);
    }
}

/// A completed visit that starts outside header suppression ends outside
/// it: every construct that sets the flag clears it by its close.
pub proof fn lemma_step_node_skip(s: StateV, n: SyntaxNode)
    ensures
        step_node(s, n) matches Ok(s2) ==> (!s.skip ==> !s2.skip),
    decreases n, 1nat,
{
    let k = n.kind@;
    if s.skip && !is_body_kind(k) {
    } else {
        let s0 = StateV { skip: false, ..s };
        match classify(k) {
            NodeClass::Transparent => {
                lemma_step_children_skip(s0, n.children@);
            },
            NodeClass::Else => {
                match enter_else(s0, n) {
                    Ok(s1) => {
                        lemma_step_children_skip(s1, n.children@);
                    },
                    Err(_) => {},
                }
            },
            _ => {},
        }
    }
}

/// Header suppression over a child list.
pub proof fn lemma_step_children_skip(s: StateV, cs: Seq<SyntaxNode>)
    ensures
        step_children(s, cs) matches Ok(s2) ==> (!s.skip ==> !s2.skip),
    decreases cs, 0nat,
{
    if cs.len() == 0 {
    } else {
        lemma_step_node_skip(s, cs[0]);
        match step_node(s, cs[0]) {
            Ok(s1) => {
                lemma_step_children_skip(s1, cs.drop_first());
            },
            Err(_) => {},
        }
    }
}

/// While some branching construct stays open underneath, the branch
/// ceiling only rises: no construct inside the branch may restart it.
pub proof fn lemma_step_node_ceiling(s: StateV, n: SyntaxNode)
    requires
        crate::model::has_branch_scope(s.stack),
    ensures
        step_node(s, n) matches Ok(s2) ==> s2.ceiling >= s.ceiling
            && crate::model::has_branch_scope(s2.stack),
    decreases n, 1nat,
{
    lemma_step_node_stack(s, n);
    let k = n.kind@;
    if s.skip && !is_body_kind(k) {
    } else {
        let s0 = StateV { skip: false, ..s };
        match classify(k) {
            NodeClass::Ignored => {},
            NodeClass::Transparent => {
                lemma_step_children_ceiling(s0, n.children@);
            },
            NodeClass::Function => {
                let s1 = enter_function(s0, n);
                assert(crate::model::has_branch_scope(s1.stack)) by {
                    let w = choose|i: int|
                        0 <= i < s.stack.len() && (s.stack[i] is If || s.stack[i] is Else
                            || s.stack[i] is Match);
                    assert(s1.stack[w] == s.stack[w]);
                }
                lemma_step_children_ceiling(s1, n.children@);
            },
            NodeClass::If => {
                let s1 = enter_if(s0, n);
                assert(crate::model::has_branch_scope(s1.stack)) by {
                    assert(s1.stack.last() is If);
                }
                lemma_step_children_ceiling(s1, n.children@);
            },
            NodeClass::Else => {
                match enter_else(s0, n) {
                    Ok(s1) => {
                        assert(crate::model::has_branch_scope(s1.stack)) by {
                            let w = choose|i: int|
                                0 <= i < s.stack.len() && (s.stack[i] is If || s.stack[i] is Else
                                    || s.stack[i] is Match);
                            assert(s1.stack[w] == s.stack[w]);
                        }
                        lemma_step_children_ceiling(s1, n.children@);
                    },
                    Err(_) => {},
                }
            },
            NodeClass::Loop => {
                let s1 = enter_loop(s0, n);
                assert(crate::model::has_branch_scope(s1.stack)) by {
                    let w = choose|i: int|
                        0 <= i < s.stack.len() && (s.stack[i] is If || s.stack[i] is Else
                            || s.stack[i] is Match);
                    assert(s1.stack[w] == s.stack[w]);
                }
                lemma_step_children_ceiling(s1, n.children@);
            },
            NodeClass::Match => {
                match enter_match(s0, n) {
                    Ok(s1) => {
                        assert(crate::model::has_branch_scope(s1.stack)) by {
                            assert(s1.stack.last() is Match);
                        }
                        lemma_step_children_ceiling(s1, n.children@);
                    },
                    Err(_) => {},
                }
            },
            NodeClass::Arm => {},
            NodeClass::Return => {},
            NodeClass::Macro => {},
            NodeClass::Ident => {},
            NodeClass::Generic => {},
        }
    }
}

/// Ceiling monotonicity over a child list.
pub proof fn lemma_step_children_ceiling(s: StateV, cs: Seq<SyntaxNode>)
    requires
        crate::model::has_branch_scope(s.stack),
    ensures
        step_children(s, cs) matches Ok(s2) ==> s2.ceiling >= s.ceiling
            && crate::model::has_branch_scope(s2.stack),
    decreases cs, 0nat,
{
    if cs.len() == 0 {
    } else {
        lemma_step_node_ceiling(s, cs[0]);
        match step_node(s, cs[0]) {
            Ok(s1) => {
                lemma_step_children_ceiling(s1, cs.drop_first());
            },
            Err(_) => {},
        }
    }
}

/// How many `Condition` blocks a sequence holds.
pub open spec fn count_cond_blocks(bs: Seq<BlockV>) -> nat
    decreases bs,
{
    if bs.len() == 0 {
        0
    } else {
        (if bs[0].kind is Condition {
            1nat
        } else {
            0nat
        }) + count_cond_blocks(bs.drop_first())
    }
}

/// Appending one block raises the `Condition` count exactly when the
/// block is one.
pub proof fn lemma_count_cond_push(bs: Seq<BlockV>, b: BlockV)
    ensures
        count_cond_blocks(bs.push(b)) == count_cond_blocks(bs) + (if b.kind is Condition {
            1nat
        } else {
            0nat
        }),
    decreases bs,
{
    if bs.len() == 0 {
        assert(bs.push(b).drop_first() =~= Seq::<BlockV>::empty());
        assert(bs.push(b)[0] == b);
        assert(count_cond_blocks(Seq::<BlockV>::empty()) == 0);
        assert(count_cond_blocks(bs.push(b)) == (if b.kind is Condition {
            1nat
        } else {
            0nat
        }) + count_cond_blocks(bs.push(b).drop_first()));
    } else {
        assert(bs.push(b).drop_first() =~= bs.drop_first().push(b));
        lemma_count_cond_push(bs.drop_first(), b);
        assert(bs.push(b)[0] == bs[0]);
        assert(count_cond_blocks(bs.push(b)) == (if bs[0].kind is Condition {
            1nat
        } else {
            0nat
        }) + count_cond_blocks(bs.push(b).drop_first()));
        assert(count_cond_blocks(bs) == (if bs[0].kind is Condition {
            1nat
        } else {
            0nat
        }) + count_cond_blocks(bs.drop_first()));
    }
}

/// LAW — branch-ceiling convergence: an `if` with a plain `else` whose
/// two branch bodies complete and respect the construct's bookkeeping
/// resumes at the origin column, exactly one step below the deepest row
/// either branch reached.
///
/// `t` is the state after the true branch, `f` the state after the false
/// branch's body; `max2(t.ceiling, t.y)` and `max2(f.ceiling, f.y)` are
/// the rows where each branch bottomed out.
pub proof fn lemma_if_else_convergence(s: StateV, n: SyntaxNode)
    requires
        !s.skip,
        classify(n.kind@) is If,
        n.children@.len() == 4,
        !is_body_kind(n.children@[0].kind@),
        !is_body_kind(n.children@[1].kind@),
        is_body_kind(n.children@[2].kind@),
        classify(n.children@[2].kind@) is Transparent,
        n.children@[3].kind@ == "else_clause"@,
        classify(n.children@[3].kind@) is Else,
        !crate::tree::has_kind(n.children@[3].children@, "if_expression"@),
        crate::tree::has_kind(n.children@, "else_clause"@),
        step_node(enter_if(s, n), n.children@[2]) matches Ok(t) && {
            &&& t.rps == enter_if(s, n).rps
            &&& t.stack == enter_if(s, n).stack
        },
        step_children(
            enter_else(step_node(enter_if(s, n), n.children@[2])->Ok_0, n.children@[3])->Ok_0,
            n.children@[3].children@,
        ) matches Ok(f) && {
            &&& f.stack == enter_else(
                step_node(enter_if(s, n), n.children@[2])->Ok_0,
                n.children@[3],
            )->Ok_0.stack
            &&& f.rps == enter_else(
                step_node(enter_if(s, n), n.children@[2])->Ok_0,
                n.children@[3],
            )->Ok_0.rps
            &&& -1000000 <= f.y <= 1000000
            &&& -1000000 <= f.ceiling <= 1000000
        },
    ensures
        step_node(s, n) is Ok,
        ({
            let t = step_node(enter_if(s, n), n.children@[2])->Ok_0;
            let e1 = enter_else(t, n.children@[3])->Ok_0;
            let f = step_children(e1, n.children@[3].children@)->Ok_0;
            let fin = step_node(s, n)->Ok_0;
            &&& fin.x == s.x
            &&& fin.y == crate::model::max2(
                crate::model::max2(t.ceiling, t.y),
                crate::model::max2(f.ceiling, f.y),
            ) + 100
            &&& fin.stack == s.stack
            &&& fin.rps == s.rps
            &&& (count_cond_blocks(t.blocks) == count_cond_blocks(enter_if(s, n).blocks)
                && count_cond_blocks(f.blocks) == count_cond_blocks(e1.blocks))
                ==> count_cond_blocks(fin.blocks) == count_cond_blocks(s.blocks) + 1
        }),
{
    let s1 = enter_if(s, n);
    let cs = n.children@;
    let t = step_node(s1, cs[2])->Ok_0;
    // The two header children are suppressed.
    assert(step_node(s1, cs[0]) == Ok::<StateV, crate::blocks::AnalyzeError>(s1));
    assert(step_node(s1, cs[1]) == Ok::<StateV, crate::blocks::AnalyzeError>(s1));
    // The true branch leaves suppression cleared.
    lemma_step_node_skip(s1, cs[2]);
    assert(!t.skip) by {
        assert(step_node(s1, cs[2]) == step_children(
            StateV { skip: false, ..s1 },
            cs[2].children@,
        ));
        lemma_step_children_skip(StateV { skip: false, ..s1 }, cs[2].children@);
    }
    // The else clause finds the saved return point on top.
    assert(t.rps == s.rps.push((crate::builder::sat32(s.x - crate::model::fan_width(
        crate::model::count_if_scopes(s.stack),
    )), s.y)));
    assert(t.rps.len() > 0);
    let e1r = enter_else(t, cs[3]);
    assert(e1r is Ok);
    let e1 = e1r->Ok_0;
    assert(e1.stack.last() is Else);
    assert(crate::model::has_branch_scope(e1.stack)) by {
        assert(e1.stack.last() is Else);
    }
    // The false branch only raises the ceiling.
    lemma_step_children_ceiling(e1, cs[3].children@);
    let f = step_children(e1, cs[3].children@)->Ok_0;
    assert(f.ceiling >= e1.ceiling);
    assert(e1.ceiling == crate::model::max2(t.ceiling, t.y));
    // Compose the walk of the whole construct.
    let s0 = StateV { skip: false, ..s };
    assert(s0 =~= s);
    crate::model::lemma_step_children_split(s1, cs, 0);
    crate::model::lemma_step_children_split(s1, cs, 1);
    crate::model::lemma_step_children_split(s1, cs, 2);
    crate::model::lemma_step_children_split(t, cs, 3);
    assert(cs.skip(0) =~= cs);
    assert(cs.skip(4) =~= Seq::<SyntaxNode>::empty());
    let e2 = crate::model::close_else(f, cs[3])->Ok_0;
    assert(step_node(t, cs[3]) == Ok::<StateV, crate::blocks::AnalyzeError>(e2));
    assert(step_children(s1, cs) == Ok::<StateV, crate::blocks::AnalyzeError>(e2));
    assert(e2.stack.last() is If);
    let fin = crate::model::close_if(e2, n)->Ok_0;
    assert(step_node(s, n) == Ok::<StateV, crate::blocks::AnalyzeError>(fin));
    assert(e2.y == crate::model::max2(f.ceiling, f.y) + 100);
    assert(e2.y == crate::model::max2(
        crate::model::max2(t.ceiling, t.y),
        crate::model::max2(f.ceiling, f.y),
    ) + 100);
    assert(fin.stack =~= s.stack);
    assert(fin.rps =~= s.rps);
    // The chain link itself contributes exactly one condition block.
    if count_cond_blocks(t.blocks) == count_cond_blocks(s1.blocks) && count_cond_blocks(f.blocks)
        == count_cond_blocks(e1.blocks) {
        assert(s1.blocks == s.blocks.push(
            BlockV {
                kind: BlockType::Condition,
                text: crate::model::cond_label(n),
                x: s.x,
                y: s.y,
            },
        ));
        lemma_count_cond_push(
            s.blocks,
            BlockV {
                kind: BlockType::Condition,
                text: crate::model::cond_label(n),
                x: s.x,
                y: s.y,
            },
        );
        let rx = t.rps.last().0;
        let ry = t.rps.last().1;
        assert(e1.blocks == t.blocks.push(BlockV { kind: BlockType::Else, text: "else"@, x: rx, y: ry }));
        lemma_count_cond_push(t.blocks, BlockV { kind: BlockType::Else, text: "else"@, x: rx, y: ry });
        assert(fin.blocks == f.blocks);
    }
}

/// LAW — a lone `if`: an `if` with no `else` that completes emits its
/// `Condition` block at the pre-entry cursor and resumes directly below
/// it, back at the origin column, leaving the branch fanned out beside
/// the main flow.  Stated away from the grid's saturating edge.
pub proof fn lemma_if_without_else(s: StateV, n: SyntaxNode)
    requires
        !s.skip,
        classify(n.kind@) is If,
        !crate::tree::has_kind(n.children@, "else_clause"@),
        -1000000 <= s.y <= 1000000,
    ensures
        step_node(s, n) matches Ok(fin) ==> {
            &&& fin.blocks.len() > s.blocks.len()
            &&& fin.blocks[s.blocks.len() as int] == (BlockV {
                kind: BlockType::Condition,
                text: crate::model::cond_label(n),
                x: s.x,
                y: s.y,
            })
            &&& fin.x == s.x
            &&& fin.y == s.y + 100
            &&& fin.stack == s.stack
        },
{
    let s0 = StateV { skip: false, ..s };
    assert(s0 =~= s);
    let s1 = enter_if(s0, n);
    lemma_step_node_stack(s, n);
    lemma_step_children_stack(s1, n.children@);
    lemma_step_children_appends(s1, n.children@);
    match step_children(s1, n.children@) {
        Ok(s2a) => {
            if s2a.stack.len() > 0 && s2a.stack.last() is If {
                assert(s2a.blocks[s.blocks.len() as int] == s1.blocks[s.blocks.len() as int]);
                assert(s2a.stack.last() == s1.stack.last());
                match step_node(s, n) {
                    Ok(fin) => {
                        assert(fin.stack =~= s.stack);
                    },
                    Err(_) => {},
                }
            }
        },
        Err(_) => {},
    }
}

/// The shape of an `else if` chain of `k` conditions hanging off one
/// `if_expression` node, every branch body completing within the grid and
/// honoring the construct's bookkeeping (each body leaves the scope and
/// return-point stacks as it found them).
pub open spec fn chain_ok(s: StateV, n: SyntaxNode, k: nat) -> bool
    decreases k,
{
    &&& classify(n.kind@) is If
    &&& n.children@.len() == 4
    &&& !is_body_kind(n.children@[0].kind@)
    &&& !is_body_kind(n.children@[1].kind@)
    &&& is_body_kind(n.children@[2].kind@)
    &&& classify(n.children@[2].kind@) is Transparent
    &&& n.children@[3].kind@ == "else_clause"@
    &&& classify(n.children@[3].kind@) is Else
    &&& (step_node(enter_if(s, n), n.children@[2]) matches Ok(t) && {
        &&& t.rps == enter_if(s, n).rps
        &&& t.stack == enter_if(s, n).stack
        &&& count_cond_blocks(t.blocks) == count_cond_blocks(enter_if(s, n).blocks)
    })
    &&& ({
        let t = step_node(enter_if(s, n), n.children@[2])->Ok_0;
        let c3 = n.children@[3];
        if k <= 1 {
            &&& !crate::tree::has_kind(c3.children@, "if_expression"@)
            &&& (step_children(enter_else(t, c3)->Ok_0, c3.children@) matches Ok(f) && {
                &&& f.stack == enter_else(t, c3)->Ok_0.stack
                &&& f.rps == enter_else(t, c3)->Ok_0.rps
                &&& count_cond_blocks(f.blocks) == count_cond_blocks(
                    enter_else(t, c3)->Ok_0.blocks,
                )
                &&& -1000000 <= f.y <= 1000000
                &&& -1000000 <= f.ceiling <= 1000000
            })
        } else {
            &&& c3.children@.len() == 2
            &&& classify(c3.children@[0].kind@) is Ignored
            &&& classify(c3.children@[1].kind@) is If
            &&& chain_ok(enter_else(t, c3)->Ok_0, c3.children@[1], (k - 1) as nat)
        }
    })
}

/// The deepest row any arm of the chain reaches, folded left to right.
pub open spec fn chain_bottom(s: StateV, n: SyntaxNode, k: nat) -> int
    decreases k,
{
    let t = step_node(enter_if(s, n), n.children@[2])->Ok_0;
    let c3 = n.children@[3];
    if k <= 1 {
        let f = step_children(enter_else(t, c3)->Ok_0, c3.children@)->Ok_0;
        crate::model::max2(
            crate::model::max2(t.ceiling, t.y),
            crate::model::max2(f.ceiling, f.y),
        )
    } else {
        chain_bottom(enter_else(t, c3)->Ok_0, c3.children@[1], (k - 1) as nat)
    }
}

/// LAW — chain convergence: an `else if` chain of `k` conditions
/// converges at one terminal point shared by all of its arms — the walk
/// completes and resumes at the chain's origin column, one step below the
/// deepest row any arm reached, with every scope and return point
/// restored.  No arm gets a convergence point of its own, and the chain
/// appends exactly `k` `Condition` blocks, one per link (its bodies, by
/// hypothesis, append none of their own).
pub proof fn lemma_chain_convergence(s: StateV, n: SyntaxNode, k: nat)
    requires
        k >= 1,
        !s.skip,
        chain_ok(s, n, k),
    ensures
        step_node(s, n) is Ok,
        ({
            let fin = step_node(s, n)->Ok_0;
            &&& fin.x == s.x
            &&& fin.y == chain_bottom(s, n, k) + 100
            &&& fin.stack == s.stack
            &&& fin.rps == s.rps
            &&& count_cond_blocks(fin.blocks) == count_cond_blocks(s.blocks) + k
        }),
    decreases k,
{
    let s1 = enter_if(s, n);
    let cs = n.children@;
    let t = step_node(s1, cs[2])->Ok_0;
    let c3 = cs[3];
    assert(crate::tree::has_kind(cs, "else_clause"@)) by {
        assert(cs[3].kind@ == "else_clause"@);
    }
    if k <= 1 {
        lemma_if_else_convergence(s, n);
    } else {
        // The header children are suppressed, the body walks to `t`.
        assert(step_node(s1, cs[0]) == Ok::<StateV, crate::blocks::AnalyzeError>(s1));
        assert(step_node(s1, cs[1]) == Ok::<StateV, crate::blocks::AnalyzeError>(s1));
        lemma_step_node_skip(s1, cs[2]);
        assert(!t.skip) by {
            assert(step_node(s1, cs[2]) == step_children(
                StateV { skip: false, ..s1 },
                cs[2].children@,
            ));
            lemma_step_children_skip(StateV { skip: false, ..s1 }, cs[2].children@);
        }
        // The else clause only marks the hand-over to the nested chain.
        assert(t.rps == s.rps.push((crate::builder::sat32(s.x - crate::model::fan_width(
            crate::model::count_if_scopes(s.stack),
        )), s.y)));
        assert(t.rps.len() > 0);
        let e1r = enter_else(t, c3);
        assert(e1r is Ok);
        let e1 = e1r->Ok_0;
        assert(crate::tree::has_kind(c3.children@, "if_expression"@)) by {
            assert(classify(c3.children@[1].kind@) is If);
            assert(c3.children@[1].kind@ == "if_expression"@);
        }
        assert(e1.stack == t.stack && e1.rps == t.rps.drop_last());
        assert(!e1.skip);
        // The nested chain converges by induction.
        lemma_chain_convergence(e1, c3.children@[1], (k - 1) as nat);
        let fi = step_node(e1, c3.children@[1])->Ok_0;
        // Compose the walk of the else clause's children.
        assert(step_node(e1, c3.children@[0]) == Ok::<StateV, crate::blocks::AnalyzeError>(e1));
        crate::model::lemma_step_children_split(e1, c3.children@, 0);
        crate::model::lemma_step_children_split(e1, c3.children@, 1);
        assert(c3.children@.skip(0) =~= c3.children@);
        assert(c3.children@.skip(2) =~= Seq::<SyntaxNode>::empty());
        assert(step_children(e1, c3.children@) == Ok::<StateV, crate::blocks::AnalyzeError>(fi));
        // The chain-marking else closes nothing; the whole clause yields `fi`.
        assert(crate::model::close_else(fi, c3) == Ok::<StateV, crate::blocks::AnalyzeError>(fi));
        assert(step_node(t, c3) == Ok::<StateV, crate::blocks::AnalyzeError>(fi));
        // Compose the walk of the `if` node itself.
        let s0 = StateV { skip: false, ..s };
        assert(s0 =~= s);
        crate::model::lemma_step_children_split(s1, cs, 0);
        crate::model::lemma_step_children_split(s1, cs, 1);
        crate::model::lemma_step_children_split(s1, cs, 2);
        crate::model::lemma_step_children_split(t, cs, 3);
        assert(cs.skip(0) =~= cs);
        assert(cs.skip(4) =~= Seq::<SyntaxNode>::empty());
        assert(step_children(s1, cs) == Ok::<StateV, crate::blocks::AnalyzeError>(fi));
        assert(fi.stack == e1.stack && fi.stack.last() is If);
        let fin = crate::model::close_if(fi, n)->Ok_0;
        assert(step_node(s, n) == Ok::<StateV, crate::blocks::AnalyzeError>(fin));
        assert(fin.stack =~= s.stack);
        assert(fin.rps =~= s.rps);
        // Count the chain's conditions: one here, k - 1 in the tail.
        let condb = BlockV {
            kind: BlockType::Condition,
            text: crate::model::cond_label(n),
            x: s.x,
            y: s.y,
        };
        assert(s1.blocks == s.blocks.push(condb));
        lemma_count_cond_push(s.blocks, condb);
        let rx = t.rps.last().0;
        let ry = t.rps.last().1;
        let elseb = BlockV { kind: BlockType::Else, text: "else"@, x: rx, y: ry };
        assert(e1.blocks == t.blocks.push(elseb));
        lemma_count_cond_push(t.blocks, elseb);
        assert(fin.blocks == fi.blocks);
        assert(count_cond_blocks(fin.blocks) == count_cond_blocks(s.blocks) + k);
    }
}

} // verus!
