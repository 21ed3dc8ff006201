//! Recomputation of a Merkle root from a `PoseidonBranch` and a leaf value:
//! the leaf goes into its slot of the first level, and each level's digest
//! into the offset slot of the next.
use crate::branch::{
    bitmask, compacts, extracted, holds_child, occupied, store_branch_wf, store_level_wf,
    PoseidonBranch, PoseidonLevel, StoreBranch, StoreLevel, ARITY,
};
use crate::hades::{digest, state_digest, values};
use crate::scalar::Scalar;
use vstd::prelude::*;

verus! {

/// The value carried up after hashing the first `n` levels, starting from
/// `leaf`.
pub open spec fn chain_digest(levels: Seq<PoseidonLevel>, leaf: nat, n: nat) -> nat
    decreases n,
{
    if n == 0 {
        leaf
    } else {
        let l = levels[n - 1];
        state_digest(
            values(l.leaves@).update(l.offset as int, chain_digest(levels, leaf, (n - 1) as nat)),
        )
    }
}

impl PoseidonBranch {
    /// The root recomputed from `leaf`: the digest chain through `levels`.
    /// Padding levels carry nothing into the root.
    pub fn opening_root(&self, leaf: &Scalar) -> (r: Scalar)
        requires
            self.wf(),
            leaf.wf(),
        ensures
            r.wf(),
            r.value() == chain_digest(self.levels@, leaf.value(), self.levels@.len()),
    {
        let n = self.levels.len();
        let mut cur = *leaf;
        let mut i: usize = 0;
        while i < n
            invariant
                i <= n,
                n == self.levels@.len(),
                self.wf(),
                cur.wf(),
                cur.value() == chain_digest(self.levels@, leaf.value(), i as nat),
            decreases n - i,
        {
            let level = self.levels[i];
            assert(level.wf());
            let mut leaves = level.leaves;
            leaves[level.offset] = cur;
            assert(values(leaves@) =~= values(level.leaves@).update(
                level.offset as int,
                cur.value(),
            ));
            cur = digest(&leaves);
            i = i + 1;
        }
        cur
    }
}

/// The value of child `i` of a store level, zero when it is absent.
pub open spec fn child_value(children: Seq<Option<Scalar>>, i: int) -> nat {
    if occupied(children, i) {
        children[i]->0.value()
    } else {
        0
    }
}

/// The digest of a store node: of its bitmask followed by its children.
pub open spec fn node_digest(s: StoreLevel) -> nat {
    let ch = s.children@;
    state_digest(
        seq![bitmask(ch), child_value(ch, 0), child_value(ch, 1), child_value(ch, 2), child_value(ch, 3)],
    )
}

/// The store's annotations along the opening are Poseidon digests: the root
/// is the digest of the top node, each node's child on the path holds the
/// digest of the node below, and the bottom node's child on the path holds
/// `leaf`.
pub open spec fn digests_consistent(s: StoreBranch, leaf: nat) -> bool {
    let n = s.levels@.len();
    &&& n > 0
    &&& s.root.value() == node_digest(s.levels@[0])
    &&& forall|k: int|
        1 <= k < n ==> child_value(s.levels@[k - 1].children@, s.levels@[k - 1].offset as int)
            == node_digest(#[trigger] s.levels@[k])
    &&& child_value(s.levels@[n - 1].children@, s.levels@[n - 1].offset as int) == leaf
}

proof fn lemma_level_values(l: PoseidonLevel, s: StoreLevel)
    requires
        compacts(l, s),
    ensures
        values(l.leaves@) == seq![
            bitmask(s.children@),
            child_value(s.children@, 0),
            child_value(s.children@, 1),
            child_value(s.children@, 2),
            child_value(s.children@, 3),
        ],
{
    let ch = s.children@;
    assert forall|i: int| 0 <= i < ARITY implies l.leaves@[i + 1].value() == child_value(ch, i) by {
        assert(holds_child(l.leaves@, ch, i));
    }
    assert(values(l.leaves@) =~= seq![
        bitmask(ch),
        child_value(ch, 0),
        child_value(ch, 1),
        child_value(ch, 2),
        child_value(ch, 3),
    ]);
}

/// After the first `i` levels, the chain holds the digest of the store node
/// that those levels came from.
proof fn lemma_chain_prefix(b: PoseidonBranch, s: StoreBranch, depth: nat, leaf: nat, i: nat)
    requires
        store_branch_wf(s),
        extracted(b, s, depth),
        digests_consistent(s, leaf),
        0 < i <= s.levels@.len(),
    ensures
        chain_digest(b.levels@, leaf, i) == node_digest(s.levels@[s.levels@.len() - i]),
    decreases i,
{
    let n = s.levels@.len();
    let j = (i - 1) as nat;
    if j > 0 {
        lemma_chain_prefix(b, s, depth, leaf, j);
        assert(s.levels@[n - j] == s.levels@[(n - 1 - j) + 1]);
    }
    let sl = s.levels@[n - 1 - j];
    let l = b.levels@[j as int];
    assert(compacts(l, sl));
    assert(store_level_wf(sl));
    lemma_level_values(l, sl);
    let prev = chain_digest(b.levels@, leaf, j);
    assert(prev == child_value(sl.children@, sl.offset as int));
    assert(values(l.leaves@).update(l.offset as int, prev) =~= values(l.leaves@));
}

/// Where the store's annotations are the digests of their nodes, the root
/// recomputed from a branch taken from the store equals the store's root,
/// which is the branch's own `root`.
pub proof fn lemma_opening_matches_root(b: PoseidonBranch, s: StoreBranch, depth: nat, leaf: nat)
    requires
        store_branch_wf(s),
        extracted(b, s, depth),
        digests_consistent(s, leaf),
    ensures
        chain_digest(b.levels@, leaf, b.levels@.len()) == s.root.value(),
        chain_digest(b.levels@, leaf, b.levels@.len()) == b.root.value(),
{
    lemma_chain_prefix(b, s, depth, leaf, s.levels@.len());
}

} // verus!
