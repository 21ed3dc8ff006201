//! Compaction of a tree store's opening into a `PoseidonBranch`: levels of
//! `WIDTH` scalars, leaf first, each holding an occupancy bitmask and the
//! children of one node.
use crate::hades::{all_wf, WIDTH};
use crate::scalar::Scalar;
use vstd::prelude::*;

verus! {

/// Number of children of a tree node.
pub const ARITY: usize = 4;

/// One level of an opening as the tree store reports it: the node's
/// children, in order, and the index of the child on the way to the leaf.
#[derive(Clone, Debug)]
pub struct StoreLevel {
    pub children: Vec<Option<Scalar>>,
    pub offset: usize,
}

/// An opening as the tree store reports it: the root annotation and the
/// levels from the root down to the leaf.
#[derive(Clone, Debug)]
pub struct StoreBranch {
    pub root: Scalar,
    pub levels: Vec<StoreLevel>,
}

/// Errors of branch extraction.
#[derive(Clone, Copy, Debug, PartialEq, Eq, Structural)]
pub enum BranchError {
    /// The store has no path to the requested position.
    BranchNotFound,
}

/// A level of a `PoseidonBranch`: slot 0 holds the occupancy bitmask, slots
/// `1..WIDTH` the children, and `offset` is the slot that the digest of the
/// level below goes into.
#[derive(Clone, Copy, Debug)]
pub struct PoseidonLevel {
    pub offset: usize,
    pub leaves: [Scalar; WIDTH],
}

/// The compacted opening of one leaf. `levels[0]` is the leaf's own level;
/// `padding_levels` fill the branch up to the fixed depth of a circuit.
#[derive(Clone, Debug)]
pub struct PoseidonBranch {
    pub root: Scalar,
    pub levels: Vec<PoseidonLevel>,
    pub padding_levels: Vec<PoseidonLevel>,
}

/// Child `i` of a store level is present.
pub open spec fn occupied(children: Seq<Option<Scalar>>, i: int) -> bool {
    0 <= i < children.len() && children[i] is Some
}

/// The occupancy bits of the first `n` children, the first child in the most
/// significant place.
pub open spec fn occupancy_mask(children: Seq<Option<Scalar>>, n: int) -> nat
    decreases n,
{
    if n <= 0 {
        0
    } else {
        2 * occupancy_mask(children, n - 1) + if occupied(children, n - 1) {
            1nat
        } else {
            0nat
        }
    }
}

/// The bitmask of a node: bit `ARITY - 1 - i` is set iff child `i` is
/// present.
pub open spec fn bitmask(children: Seq<Option<Scalar>>) -> nat {
    occupancy_mask(children, ARITY as int)
}

/// Two to the power `n`.
pub open spec fn two_pow(n: nat) -> nat
    decreases n,
{
    if n == 0 {
        1
    } else {
        2 * two_pow((n - 1) as nat)
    }
}

/// Bit `ARITY - 1 - i` of a node's bitmask is set iff child `i` is present.
pub proof fn lemma_bitmask_bit(children: Seq<Option<Scalar>>, i: int)
    requires
        0 <= i < ARITY,
    ensures
        (bitmask(children) / two_pow((ARITY - 1 - i) as nat)) % 2 == 1 <==> occupied(children, i),
{
    reveal_with_fuel(occupancy_mask, 5);
    reveal_with_fuel(two_pow, 5);
    let b0: int = if occupied(children, 0) { 1 } else { 0 };
    let b1: int = if occupied(children, 1) { 1 } else { 0 };
    let b2: int = if occupied(children, 2) { 1 } else { 0 };
    let b3: int = if occupied(children, 3) { 1 } else { 0 };
    let m = bitmask(children) as int;
    assert(m == 8 * b0 + 4 * b1 + 2 * b2 + b3);
    assert(m / 8 == b0 && (m / 4) % 2 == b1 && (m / 2) % 2 == b2 && m % 2 == b3) by (nonlinear_arith)
        requires
            m == 8 * b0 + 4 * b1 + 2 * b2 + b3,
            0 <= b0 <= 1,
            0 <= b1 <= 1,
            0 <= b2 <= 1,
            0 <= b3 <= 1,
    ;
    assert(two_pow(0) == 1 && two_pow(1) == 2 && two_pow(2) == 4 && two_pow(3) == 8);
    if i == 0 {
        assert((m / 8) % 2 == b0);
    } else if i == 1 {
        assert(ARITY - 1 - i == 2);
    } else if i == 2 {
        assert(ARITY - 1 - i == 1);
    } else {
        assert(m / 1 == m);
    }
}

/// The store level is one that this extractor accepts: at most `ARITY`
/// canonical children and an offset among them.
pub open spec fn store_level_wf(s: StoreLevel) -> bool {
    &&& s.children@.len() <= ARITY
    &&& s.offset < ARITY
    &&& forall|i: int| #[trigger] occupied(s.children@, i) ==> s.children@[i]->0.wf()
}

/// The store opening has a canonical root and only accepted levels.
pub open spec fn store_branch_wf(s: StoreBranch) -> bool {
    &&& s.root.wf()
    &&& forall|i: int| 0 <= i < s.levels@.len() ==> #[trigger] store_level_wf(s.levels@[i])
}

/// Slot `i + 1` of `leaves` holds child `i` when it is present, zero when it
/// is not.
pub open spec fn holds_child(leaves: Seq<Scalar>, children: Seq<Option<Scalar>>, i: int) -> bool {
    if occupied(children, i) {
        leaves[i + 1] == children[i]->0
    } else {
        leaves[i + 1].value() == 0
    }
}

/// `l` is the compacted form of store level `s`.
pub open spec fn compacts(l: PoseidonLevel, s: StoreLevel) -> bool {
    &&& l.offset == s.offset + 1
    &&& all_wf(l.leaves@)
    &&& l.leaves@[0].value() == bitmask(s.children@)
    &&& forall|i: int| 0 <= i < ARITY ==> #[trigger] holds_child(l.leaves@, s.children@, i)
}

/// A padding level: all leaves zero, offset zero.
pub open spec fn is_padding(l: PoseidonLevel) -> bool {
    &&& l.offset == 0
    &&& all_wf(l.leaves@)
    &&& forall|i: int| 0 <= i < WIDTH ==> #[trigger] l.leaves@[i].value() == 0
}

/// The number of padding levels that bring `n` levels to `depth`.
pub open spec fn padding_count(n: nat, depth: nat) -> nat {
    if n < depth {
        (depth - n) as nat
    } else {
        0
    }
}

/// `b` is the compaction of store opening `s` padded to `depth`.
pub open spec fn extracted(b: PoseidonBranch, s: StoreBranch, depth: nat) -> bool {
    &&& b.root == s.root
    &&& b.levels@.len() == s.levels@.len()
    &&& forall|i: int|
        0 <= i < b.levels@.len() ==> compacts(
            #[trigger] b.levels@[i],
            s.levels@[s.levels@.len() - 1 - i],
        )
    &&& b.padding_levels@.len() == padding_count(s.levels@.len(), depth)
    &&& forall|i: int| 0 <= i < b.padding_levels@.len() ==> is_padding(#[trigger] b.padding_levels@[i])
}

/// Each extracted level's offset is the store's offset plus one, and lies
/// in `[1, WIDTH)`.
pub proof fn lemma_offset_shift(b: PoseidonBranch, s: StoreBranch, depth: nat)
    requires
        store_branch_wf(s),
        extracted(b, s, depth),
    ensures
        forall|i: int|
            0 <= i < b.levels@.len() ==> (#[trigger] b.levels@[i]).offset == s.levels@[s.levels@.len()
                - 1 - i].offset + 1 && 1 <= b.levels@[i].offset < WIDTH,
{
    assert forall|i: int| 0 <= i < b.levels@.len() implies (#[trigger] b.levels@[i]).offset
        == s.levels@[s.levels@.len() - 1 - i].offset + 1 && 1 <= b.levels@[i].offset < WIDTH by {
        assert(compacts(b.levels@[i], s.levels@[s.levels@.len() - 1 - i]));
        assert(store_level_wf(s.levels@[s.levels@.len() - 1 - i]));
    }
}

/// A branch taken from an opening shorter than `depth` has exactly `depth`
/// levels with its padding, and every padding level is all zero with offset
/// zero.
pub proof fn lemma_padded_to_depth(b: PoseidonBranch, s: StoreBranch, depth: nat)
    requires
        extracted(b, s, depth),
        s.levels@.len() < depth,
    ensures
        b.levels@.len() + b.padding_levels@.len() == depth,
        forall|i: int|
            0 <= i < b.padding_levels@.len() ==> (#[trigger] b.padding_levels@[i]).offset == 0 && (
            forall|j: int| 0 <= j < WIDTH ==> #[trigger] b.padding_levels@[i].leaves@[j].value() == 0),
{
    assert forall|i: int| 0 <= i < b.padding_levels@.len() implies (
    #[trigger] b.padding_levels@[i]).offset == 0 && (forall|j: int|
        0 <= j < WIDTH ==> #[trigger] b.padding_levels@[i].leaves@[j].value() == 0) by {
        assert(is_padding(b.padding_levels@[i]));
    }
}

proof fn lemma_two_pow_small(n: nat)
    requires
        n <= ARITY,
    ensures
        two_pow(n) <= 16,
{
    reveal_with_fuel(two_pow, 5);
}

impl PoseidonLevel {
    /// The offset is a slot of the level and every leaf is canonical.
    pub open spec fn wf(&self) -> bool {
        &&& self.offset < WIDTH
        &&& all_wf(self.leaves@)
    }
}

impl Default for PoseidonLevel {
    /// A padding level.
    fn default() -> (r: PoseidonLevel)
        ensures
            is_padding(r),
    {
        let z = Scalar::zero();
        PoseidonLevel { offset: 0, leaves: [z, z, z, z, z] }
    }
}

/// Compacts one store level.
fn compact_level(s: &StoreLevel) -> (r: PoseidonLevel)
    requires
        store_level_wf(*s),
    ensures
        compacts(r, *s),
        r.wf(),
{
    let ghost ch = s.children@;
    let z = Scalar::zero();
    let mut leaves = [z, z, z, z, z];
    let mut mask: u64 = 0;
    let mut i: usize = 0;
    while i < ARITY
        invariant
            i <= ARITY,
            store_level_wf(*s),
            ch == s.children@,
            mask as nat == occupancy_mask(ch, i as int),
            mask < two_pow(i as nat),
            all_wf(leaves@),
            leaves@[0].value() == 0,
            forall|j: int| 0 <= j < i ==> #[trigger] holds_child(leaves@, ch, j),
            forall|j: int| i < j + 1 < WIDTH ==> #[trigger] leaves@[j + 1].value() == 0,
        decreases ARITY - i,
    {
        proof {
            lemma_two_pow_small(i as nat);
            lemma_two_pow_small((i + 1) as nat);
        }
        let ghost prev = leaves@;
        let present = i < s.children.len() && s.children[i].is_some();
        if present {
            let v = s.children[i].unwrap();
            assert(occupied(ch, i as int));
            leaves[i + 1] = v;
            mask = 2 * mask + 1;
        } else {
            mask = 2 * mask;
        }
        assert(holds_child(leaves@, ch, i as int));
        assert forall|j: int| 0 <= j < i implies #[trigger] holds_child(leaves@, ch, j) by {
            assert(holds_child(prev, ch, j));
            assert(leaves@[j + 1] == prev[j + 1]);
        }
        i = i + 1;
    }
    let ghost before = leaves@;
    leaves[0] = Scalar::from_u64(mask);
    assert forall|j: int| 0 <= j < ARITY implies #[trigger] holds_child(leaves@, ch, j) by {
        assert(holds_child(before, ch, j));
        assert(leaves@[j + 1] == before[j + 1]);
    }
    PoseidonLevel { offset: s.offset + 1, leaves }
}

impl PoseidonBranch {
    /// The root and every level are well-formed.
    pub open spec fn wf(&self) -> bool {
        &&& self.root.wf()
        &&& forall|i: int| 0 <= i < self.levels@.len() ==> #[trigger] self.levels@[i].wf()
        &&& forall|i: int|
            0 <= i < self.padding_levels@.len() ==> #[trigger] self.padding_levels@[i].wf()
    }

    /// An empty branch with a zero root.
    pub fn new() -> (r: PoseidonBranch)
        ensures
            r.wf(),
            r.root.value() == 0,
            r.levels@.len() == 0,
            r.padding_levels@.len() == 0,
    {
        PoseidonBranch { root: Scalar::zero(), levels: Vec::new(), padding_levels: Vec::new() }
    }

    /// An empty branch with a zero root and room for `n` levels.
    pub fn with_capacity(n: usize) -> (r: PoseidonBranch)
        ensures
            r.wf(),
            r.root.value() == 0,
            r.levels@.len() == 0,
            r.padding_levels@.len() == 0,
    {
        PoseidonBranch {
            root: Scalar::zero(),
            levels: Vec::with_capacity(n),
            padding_levels: Vec::new(),
        }
    }

    /// The root of the tree that the branch was taken from.
    pub fn root(&self) -> (r: Scalar)
        ensures
            r == self.root,
    {
        self.root
    }

    /// Compacts a store opening: the root is copied as it is, the levels are
    /// taken leaf first, and padding levels bring the total to `depth`.
    pub fn from_store(store: &StoreBranch, depth: usize) -> (r: PoseidonBranch)
        requires
            store_branch_wf(*store),
        ensures
            r.wf(),
            extracted(r, *store, depth as nat),
    {
        let n = store.levels.len();
        let mut r = PoseidonBranch::with_capacity(n);
        r.root = store.root;
        let mut i: usize = 0;
        while i < n
            invariant
                i <= n,
                n == store.levels@.len(),
                store_branch_wf(*store),
                r.wf(),
                r.root == store.root,
                r.levels@.len() == i,
                r.padding_levels@.len() == 0,
                forall|j: int|
                    0 <= j < i ==> compacts(#[trigger] r.levels@[j], store.levels@[n - 1 - j]),
            decreases n - i,
        {
            assert(store_level_wf(store.levels@[n - 1 - i]));
            let level = compact_level(&store.levels[n - 1 - i]);
            r.levels.push(level);
            i = i + 1;
        }
        let mut k: usize = n;
        while k < depth
            invariant
                n <= k,
                k <= depth || n == k,
                n == store.levels@.len(),
                r.wf(),
                r.root == store.root,
                r.levels@.len() == n,
                r.padding_levels@.len() == k - n,
                forall|j: int|
                    0 <= j < n ==> compacts(#[trigger] r.levels@[j], store.levels@[n - 1 - j]),
                forall|j: int|
                    0 <= j < r.padding_levels@.len() ==> is_padding(#[trigger] r.padding_levels@[j]),
            decreases depth - k,
        {
            let pad = PoseidonLevel::default();
            r.padding_levels.push(pad);
            k = k + 1;
        }
        r
    }

    /// Compacts the opening that a store returned for a position; fails with
    /// `BranchNotFound` when it returned none.
    pub fn from_opening(opening: Option<&StoreBranch>, depth: usize) -> (r: Result<
        PoseidonBranch,
        BranchError,
    >)
        requires
            opening matches Some(s) ==> store_branch_wf(*s),
        ensures
            r is Err <==> opening is None,
            r is Err ==> r == Err::<PoseidonBranch, BranchError>(BranchError::BranchNotFound),
            r matches Ok(b) ==> opening matches Some(s) && b.wf() && extracted(b, *s, depth as nat),
    {
        match opening {
            Some(s) => Ok(PoseidonBranch::from_store(s, depth)),
            None => Err(BranchError::BranchNotFound),
        }
    }
}

} // verus!
