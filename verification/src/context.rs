//! The layout context threaded through one tree walk: the block accumulator
//! plus the bookkeeping that branch coordination needs — the return-point
//! stack, the branch ceiling, and the two one-shot flags.
//!
//! All of this lives only for the duration of one walk; every conversion
//! owns a fresh context and discards it once the Block Sequence is returned.

use vstd::prelude::*;

use crate::blocks::BlockV;
use crate::builder::{BuilderV, DiagramBuilder, ScopeV};

verus! {

/// Mathematical model of the whole walk state.
#[verifier::ext_equal]
pub ghost struct StateV {
    /// The blocks emitted so far, in emission order.
    pub blocks: Seq<BlockV>,
    /// The open scopes, innermost last.
    pub stack: Seq<ScopeV>,
    /// The cursor.
    pub x: int,
    pub y: int,
    /// The return-point stack: where each pending `else` must resume.
    pub rps: Seq<(int, int)>,
    /// The branch ceiling: the deepest row reached by any arm of the
    /// branching construct being processed.
    pub ceiling: int,
    /// One-shot: suppress the structural header children of the construct
    /// just entered, until its body block arrives.
    pub skip: bool,
    /// One-shot: an early return already emitted this scope's terminal
    /// block.
    pub is_ret: bool,
}

/// The mutable state of one tree walk.
#[derive(Debug)]
pub struct Context {
    /// Blocks, cursor and scope stack.
    pub builder: DiagramBuilder,
    /// Return points for pending `else` branches, innermost last.
    pub if_else_stack: Vec<(i32, i32)>,
    /// The branch ceiling.
    pub y_if_max: i32,
    /// Suppress structural header children until the body brace arrives.
    pub skip_until_brace: bool,
    /// An early return already emitted a terminal block.
    pub is_return: bool,
}

impl View for Context {
    type V = StateV;

    open spec fn view(&self) -> StateV {
        StateV {
            blocks: self.builder@.blocks,
            stack: self.builder@.stack,
            x: self.builder@.x,
            y: self.builder@.y,
            rps: Seq::new(
                self.if_else_stack@.len(),
                |i: int| (self.if_else_stack@[i].0 as int, self.if_else_stack@[i].1 as int),
            ),
            ceiling: self.y_if_max as int,
            skip: self.skip_until_brace,
            is_ret: self.is_return,
        }
    }
}

/// The state every walk starts from.
pub open spec fn init_state() -> StateV {
    StateV {
        blocks: Seq::empty(),
        stack: Seq::empty(),
        x: 0,
        y: 0,
        rps: Seq::empty(),
        ceiling: 0,
        skip: false,
        is_ret: false,
    }
}

impl Context {
    /// A fresh walk state: empty output, cursor at the origin, no open
    /// scopes, no pending return points, ceiling at the origin row, both
    /// one-shot flags clear.
    pub fn new() -> (r: Self)
        ensures
            r@ == init_state(),
    {
        let r = Context {
            builder: DiagramBuilder::new(),
            if_else_stack: Vec::new(),
            y_if_max: 0,
            skip_until_brace: false,
            is_return: false,
        };
        proof {
            assert(r@.rps =~= Seq::<(int, int)>::empty());
            assert(r@ =~= init_state());
        }
        r
    }
}

} // verus!
