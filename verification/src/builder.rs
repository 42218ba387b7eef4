//! The block-sequence accumulator: the ordered output, the cursor it is
//! written at, and the stack of currently open compound constructs.
//!
//! Coordinates saturate at the edges of the 32-bit grid instead of wrapping:
//! a tree large enough to reach them is far beyond any drawable diagram, and
//! saturation keeps the walk total so that only genuine structural
//! violations are fatal.

use vstd::prelude::*;

use crate::blocks::{BlockType, BlockV, CodeBlock};

verus! {

/// One currently open compound construct, with the coordinates needed to
/// restore the cursor when it closes.
#[derive(Debug)]
pub enum BlockScope {
    /// The outermost construct of one function.
    Function,
    /// An open `if`: origin cursor before the branch shift, and the x shift
    /// applied to enter the true branch.
    If(i32, i32, i32),
    /// An open `else` branch: the cursor it was entered at.
    Else(i32, i32),
    /// An open loop: the anchor of the loop header, used by the consumer to
    /// draw the back edge.
    Loop(i32, i32),
    /// An open `match`: anchor before the fan-out, and a countdown of arms
    /// still open.
    Match(i32, i32, usize),
}

/// Mathematical model of one open scope.
#[verifier::ext_equal]
pub ghost enum ScopeV {
    Function,
    If { ox: int, oy: int, shift: int },
    Else { ox: int, oy: int },
    Loop { ax: int, ay: int },
    Match { ax: int, ay: int, remaining: nat },
}

impl View for BlockScope {
    type V = ScopeV;

    open spec fn view(&self) -> ScopeV {
        match *self {
            BlockScope::Function => ScopeV::Function,
            BlockScope::If(ox, oy, shift) => ScopeV::If {
                ox: ox as int,
                oy: oy as int,
                shift: shift as int,
            },
            BlockScope::Else(ox, oy) => ScopeV::Else { ox: ox as int, oy: oy as int },
            BlockScope::Loop(ax, ay) => ScopeV::Loop { ax: ax as int, ay: ay as int },
            BlockScope::Match(ax, ay, remaining) => ScopeV::Match {
                ax: ax as int,
                ay: ay as int,
                remaining: remaining as nat,
            },
        }
    }
}

/// Clamps a mathematical coordinate onto the 32-bit grid.
pub open spec fn sat32(v: int) -> int {
    if v < i32::MIN {
        i32::MIN as int
    } else if v > i32::MAX {
        i32::MAX as int
    } else {
        v
    }
}

/// Saturating coordinate addition.
pub fn sat_add(a: i32, b: i32) -> (r: i32)
    ensures
        r as int == sat32(a + b),
{
    let s: i64 = a as i64 + b as i64;
    if s < i32::MIN as i64 {
        i32::MIN
    } else if s > i32::MAX as i64 {
        i32::MAX
    } else {
        s as i32
    }
}

/// Saturating coordinate subtraction.
pub fn sat_sub(a: i32, b: i32) -> (r: i32)
    ensures
        r as int == sat32(a - b),
{
    let s: i64 = a as i64 - b as i64;
    if s < i32::MIN as i64 {
        i32::MIN
    } else if s > i32::MAX as i64 {
        i32::MAX
    } else {
        s as i32
    }
}

/// The larger of two coordinates.
pub fn max_i32(a: i32, b: i32) -> (r: i32)
    ensures
        r as int == if a >= b {
            a as int
        } else {
            b as int
        },
{
    if a >= b {
        a
    } else {
        b
    }
}

/// The models of a list of open scopes, innermost last.
pub open spec fn scopes_view(v: Seq<BlockScope>) -> Seq<ScopeV> {
    Seq::new(v.len(), |i: int| v[i]@)
}

/// Mathematical model of the accumulator: the emitted blocks, the cursor,
/// and the open scopes (innermost last).
#[verifier::ext_equal]
pub ghost struct BuilderV {
    pub blocks: Seq<BlockV>,
    pub x: int,
    pub y: int,
    pub stack: Seq<ScopeV>,
}

/// Accumulates the Block Sequence: every handler appends blocks at the
/// current cursor and tracks open constructs on the scope stack.
#[derive(Debug)]
pub struct DiagramBuilder {
    pub blocks: Vec<CodeBlock>,
    pub position: (i32, i32),
    pub block_stack: Vec<BlockScope>,
}

impl View for DiagramBuilder {
    type V = BuilderV;

    open spec fn view(&self) -> BuilderV {
        BuilderV {
            blocks: crate::blocks::blocks_view(self.blocks@),
            x: self.position.0 as int,
            y: self.position.1 as int,
            stack: scopes_view(self.block_stack@),
        }
    }
}

impl DiagramBuilder {
    /// A fresh accumulator: no blocks, cursor at the origin, no open scopes.
    pub fn new() -> (r: Self)
        ensures
            r@.blocks == Seq::<BlockV>::empty(),
            r@.x == 0,
            r@.y == 0,
            r@.stack == Seq::<ScopeV>::empty(),
    {
        let r = DiagramBuilder { blocks: Vec::new(), position: (0, 0), block_stack: Vec::new() };
        proof {
            assert(r@.blocks =~= Seq::<BlockV>::empty());
            assert(r@.stack =~= Seq::<ScopeV>::empty());
        }
        r
    }

    /// Appends one block of the given kind and label at the current cursor.
    pub fn add_block(&mut self, block_type: BlockType, text: String)
        ensures
            final(self)@.blocks == old(self)@.blocks.push(
                BlockV { kind: block_type, text: text@, x: old(self)@.x, y: old(self)@.y },
            ),
            final(self)@.x == old(self)@.x,
            final(self)@.y == old(self)@.y,
            final(self)@.stack == old(self)@.stack,
    {
        let block = CodeBlock {
            kind: block_type,
            text,
            x: self.position.0,
            y: self.position.1,
        };
        self.blocks.push(block);
        proof {
            assert(self@.blocks =~= old(self)@.blocks.push(
                BlockV { kind: block_type, text: text@, x: old(self)@.x, y: old(self)@.y },
            ));
            assert(self@.stack =~= old(self)@.stack);
        }
    }

    /// Opens a scope and shifts the cursor to the construct's interior.
    pub fn enter_scope(&mut self, scope: BlockScope, x_shift: i32, y_shift: i32)
        ensures
            final(self)@.blocks == old(self)@.blocks,
            final(self)@.x == sat32(old(self)@.x + x_shift),
            final(self)@.y == sat32(old(self)@.y + y_shift),
            final(self)@.stack == old(self)@.stack.push(scope@),
    {
        let ghost sv = scope@;
        self.block_stack.push(scope);
        self.position.0 = sat_add(self.position.0, x_shift);
        self.position.1 = sat_add(self.position.1, y_shift);
        proof {
            assert(self@.blocks =~= old(self)@.blocks);
            assert(self@.stack =~= old(self)@.stack.push(sv));
        }
    }

    /// Pops the innermost open scope and hands it back so the caller can
    /// restore the cursor the way that construct demands.
    pub fn exit_scope(&mut self) -> (r: Option<BlockScope>)
        ensures
            final(self)@.blocks == old(self)@.blocks,
            final(self)@.x == old(self)@.x,
            final(self)@.y == old(self)@.y,
            match r {
                Some(scope) => old(self)@.stack.len() > 0 && scope@ == old(self)@.stack.last()
                    && final(self)@.stack == old(self)@.stack.drop_last(),
                None => old(self)@.stack.len() == 0 && final(self)@.stack == old(self)@.stack,
            },
    {
        let r = self.block_stack.pop();
        proof {
            assert(self@.blocks =~= old(self)@.blocks);
            if old(self)@.stack.len() > 0 {
                assert(self@.stack =~= old(self)@.stack.drop_last());
            } else {
                assert(self@.stack =~= old(self)@.stack);
            }
        }
        r
    }
}

} // verus!
