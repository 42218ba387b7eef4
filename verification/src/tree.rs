//! The library's own model of a parsed syntax tree.
//!
//! The external parser's nodes are opaque to verification, so the conversion
//! front-end rebuilds the tree as plain values: a node is its kind tag, its
//! source text, its byte span, and its children in source order.  Everything
//! the layout walker reads is held here, and the walker is verified over
//! every possible value of this type.

use vstd::prelude::*;

verus! {

/// One node of the syntax tree, in source order.
pub struct SyntaxNode {
    /// The grammar's tag for this node (`"if_expression"`, `"block"`, ...).
    pub kind: String,
    /// The source text covered by this node's span.
    pub text: String,
    /// Byte offset where the node's span starts.
    pub start: usize,
    /// Byte offset just past the node's span.
    pub end: usize,
    /// The node's children, leftmost first.
    pub children: Vec<SyntaxNode>,
}

/// True when the list holds a node of the given kind.
pub open spec fn has_kind(cs: Seq<SyntaxNode>, k: Seq<char>) -> bool {
    exists|i: int| 0 <= i < cs.len() && cs[i].kind@ == k
}

/// How many nodes of the given kind the list holds.
pub open spec fn count_kind(cs: Seq<SyntaxNode>, k: Seq<char>) -> nat
    decreases cs,
{
    if cs.len() == 0 {
        0
    } else {
        (if cs[0].kind@ == k {
            1nat
        } else {
            0nat
        }) + count_kind(cs.drop_first(), k)
    }
}

/// Index of the leftmost node of the given kind, or -1 when there is none.
pub open spec fn first_kind_idx(cs: Seq<SyntaxNode>, k: Seq<char>) -> int
    decreases cs,
{
    if cs.len() == 0 {
        -1
    } else if cs[0].kind@ == k {
        0
    } else {
        let r = first_kind_idx(cs.drop_first(), k);
        if r < 0 {
            -1
        } else {
            r + 1
        }
    }
}

/// What `first_kind_idx` returns: -1 exactly when the kind is absent, and
/// otherwise the least index carrying it.
pub proof fn lemma_first_kind_idx(cs: Seq<SyntaxNode>, k: Seq<char>)
    ensures
        first_kind_idx(cs, k) == -1 <==> !has_kind(cs, k),
        first_kind_idx(cs, k) >= 0 ==> {
            let r = first_kind_idx(cs, k);
            &&& 0 <= r < cs.len()
            &&& cs[r].kind@ == k
            &&& forall|j: int| 0 <= j < r ==> cs[j].kind@ != k
        },
    decreases cs.len(),
{
    if cs.len() == 0 {
    } else if cs[0].kind@ == k {
        assert(has_kind(cs, k));
    } else {
        lemma_first_kind_idx(cs.drop_first(), k);
        let rest = cs.drop_first();
        let r = first_kind_idx(rest, k);
        if r == -1 {
            assert(!has_kind(cs, k)) by {
                assert(forall|i: int|
                    0 < i < cs.len() ==> cs[i] == rest[i - 1] && #[trigger] cs[i].kind@ != k);
            }
        } else {
            assert(cs[r + 1] == rest[r]);
            assert(has_kind(cs, k));
            assert(forall|j: int| 0 < j < r + 1 ==> #[trigger] cs[j].kind@ == rest[j - 1].kind@);
        }
        if has_kind(cs, k) {
            let w = choose|i: int| 0 <= i < cs.len() && cs[i].kind@ == k;
            assert(w > 0);
            assert(rest[w - 1].kind@ == k);
            assert(has_kind(rest, k));
        }
    }
}

/// Splits `count_kind` of a suffix at its first element.
pub proof fn lemma_count_kind_split(cs: Seq<SyntaxNode>, k: Seq<char>, i: int)
    requires
        0 <= i < cs.len(),
    ensures
        count_kind(cs.skip(i), k) == (if cs[i].kind@ == k {
            1nat
        } else {
            0nat
        }) + count_kind(cs.skip(i + 1), k),
{
    assert(cs.skip(i).drop_first() =~= cs.skip(i + 1));
    assert(cs.skip(i)[0] == cs[i]);
}

impl SyntaxNode {
    /// True when `self.kind` is exactly `k`.
    pub fn kind_is(&self, k: &str) -> (r: bool)
        ensures
            r == (self.kind@ == k@),
    {
        let ks: String = k.to_owned();
        self.kind == ks
    }
}

/// True when some child in `cs` has kind `k`.
pub fn any_kind(cs: &Vec<SyntaxNode>, k: &str) -> (r: bool)
    ensures
        r == has_kind(cs@, k@),
{
    let mut i: usize = 0;
    while i < cs.len()
        invariant
            i <= cs@.len(),
            forall|j: int| 0 <= j < i ==> cs@[j].kind@ != k@,
        decreases cs@.len() - i,
    {
        if cs[i].kind_is(k) {
            return true;
        }
        i = i + 1;
    }
    false
}

/// How many children in `cs` have kind `k`.
pub fn tally_kind(cs: &Vec<SyntaxNode>, k: &str) -> (r: usize)
    ensures
        r == count_kind(cs@, k@),
{
    proof {
        lemma_count_kind_bound(cs@, k@);
        assert(cs@.skip(0) =~= cs@);
    }
    let mut total: usize = 0;
    let mut i: usize = 0;
    while i < cs.len()
        invariant
            i <= cs@.len(),
            total + count_kind(cs@.skip(i as int), k@) == count_kind(cs@, k@),
            total <= i,
        decreases cs@.len() - i,
    {
        proof {
            lemma_count_kind_split(cs@, k@, i as int);
        }
        if cs[i].kind_is(k) {
            total = total + 1;
        }
        i = i + 1;
    }
    proof {
        assert(cs@.skip(cs@.len() as int) =~= Seq::<SyntaxNode>::empty());
    }
    total
}

/// `count_kind` never exceeds the list's length.
pub proof fn lemma_count_kind_bound(cs: Seq<SyntaxNode>, k: Seq<char>)
    ensures
        count_kind(cs, k) <= cs.len(),
    decreases cs,
{
    if cs.len() > 0 {
        lemma_count_kind_bound(cs.drop_first(), k);
    }
}

/// Index of the leftmost child of kind `k`, if any.
pub fn locate_kind(cs: &Vec<SyntaxNode>, k: &str) -> (r: Option<usize>)
    ensures
        match r {
            Some(i) => first_kind_idx(cs@, k@) == i as int,
            None => first_kind_idx(cs@, k@) == -1,
        },
{
    proof {
        lemma_first_kind_idx(cs@, k@);
    }
    let mut i: usize = 0;
    while i < cs.len()
        invariant
            i <= cs@.len(),
            forall|j: int| 0 <= j < i ==> cs@[j].kind@ != k@,
        decreases cs@.len() - i,
    {
        if cs[i].kind_is(k) {
            proof {
                lemma_first_kind_idx(cs@, k@);
                assert(has_kind(cs@, k@));
            }
            return Some(i);
        }
        i = i + 1;
    }
    proof {
        assert(!has_kind(cs@, k@));
    }
    None
}

} // verus!
