//! The circuit form of the root recomputation: the same chain of digests as
//! `PoseidonBranch::opening_root`, appended as gates to a PLONK composer.
use crate::branch::{PoseidonBranch, PoseidonLevel};
use crate::opening::chain_digest;
use crate::hades::{hades_permutation, values, WIDTH};
use crate::scalar::Scalar;
#[allow(deprecated)]
use dusk_hades::GadgetStrategy;
use dusk_plonk::prelude::{BlsScalar, Composer, Witness};
use vstd::prelude::*;

verus! {

#[verifier::external_type_specification]
#[verifier::external_body]
pub struct ExComposer(Composer);

#[verifier::external_type_specification]
#[verifier::external_body]
pub struct ExWitness(Witness);

/// The values of the witnesses allocated in a composer, in order of
/// allocation.
pub uninterp spec fn composer_values(c: Composer) -> Seq<nat>;

/// The position of a witness among its composer's witnesses.
pub uninterp spec fn witness_index(w: Witness) -> nat;

/// `w` is allocated in `c`.
pub open spec fn allocated(c: Composer, w: Witness) -> bool {
    witness_index(w) < composer_values(c).len()
}

/// The value of witness `w` in composer `c`.
pub open spec fn witness_value(c: Composer, w: Witness) -> nat {
    composer_values(c)[witness_index(w) as int]
}

/// The values of a sequence of witnesses in `c`.
pub open spec fn witness_values(c: Composer, ws: Seq<Witness>) -> Seq<nat> {
    ws.map_values(|w: Witness| witness_value(c, w))
}

/// `c1` holds every witness of `c0`, with its value unchanged.
pub open spec fn extends(c0: Composer, c1: Composer) -> bool {
    composer_values(c0).is_prefix_of(composer_values(c1))
}

/// Relies on `Composer::append_witness`, which pushes the scalar (read with
/// `BlsScalar::from_bytes`) onto the composer's witnesses and returns the
/// witness of the old length.
#[verifier::external_body]
fn append_witness(composer: &mut Composer, s: &Scalar) -> (r: Witness)
    requires
        s.wf(),
    ensures
        composer_values(*final(composer)) == composer_values(*old(composer)).push(s.value()),
        witness_index(r) == composer_values(*old(composer)).len(),
{
    composer.append_witness(BlsScalar::from_bytes(&s.bytes).unwrap())
}

/// Relies on `dusk_hades::GadgetStrategy::gadget`, which appends the gates of
/// the permutation, each new witness pushed with its evaluated value, and
/// replaces the state by the witnesses of the permutation's output. It reads
/// the input witnesses' values, so they must be allocated in this composer.
#[verifier::external_body]
#[allow(deprecated)]
fn permute_gadget(composer: &mut Composer, state: &mut [Witness; WIDTH])
    requires
        forall|i: int| 0 <= i < WIDTH ==> allocated(*old(composer), #[trigger] old(state)@[i]),
    ensures
        extends(*old(composer), *final(composer)),
        forall|i: int| 0 <= i < WIDTH ==> allocated(*final(composer), #[trigger] final(state)@[i]),
        witness_values(*final(composer), final(state)@) == hades_permutation(
            witness_values(*old(composer), old(state)@),
        ),
{
    GadgetStrategy::gadget(composer, state)
}

/// A witness allocated before `c0` was extended keeps its value.
proof fn lemma_extends_keeps(c0: Composer, c1: Composer, w: Witness)
    requires
        extends(c0, c1),
        allocated(c0, w),
    ensures
        allocated(c1, w),
        witness_value(c1, w) == witness_value(c0, w),
{
}

/// Witnesses for the leaves of a level.
fn level_witnesses(composer: &mut Composer, level: &PoseidonLevel) -> (r: [Witness; WIDTH])
    requires
        level.wf(),
    ensures
        extends(*old(composer), *final(composer)),
        forall|i: int| 0 <= i < WIDTH ==> allocated(*final(composer), #[trigger] r@[i]),
        witness_values(*final(composer), r@) == values(level.leaves@),
{
    let ghost c0 = *composer;
    let w0 = append_witness(composer, &level.leaves[0]);
    let ghost c1 = *composer;
    let w1 = append_witness(composer, &level.leaves[1]);
    let ghost c2 = *composer;
    let w2 = append_witness(composer, &level.leaves[2]);
    let ghost c3 = *composer;
    let w3 = append_witness(composer, &level.leaves[3]);
    let ghost c4 = *composer;
    let w4 = append_witness(composer, &level.leaves[4]);
    let r = [w0, w1, w2, w3, w4];
    let ghost c5 = *composer;
    assert(composer_values(c5) =~= composer_values(c0) + seq![
        level.leaves@[0].value(),
        level.leaves@[1].value(),
        level.leaves@[2].value(),
        level.leaves@[3].value(),
        level.leaves@[4].value(),
    ]);
    assert(witness_values(c5, r@) =~= values(level.leaves@));
    r
}

/// Appends the gates that carry `leaf` up through the levels of `branch`,
/// each level's digest going into the offset slot of the next, and returns
/// the witness of the root; the caller asserts it equal to the expected root.
/// Every padding level is hashed as well, with its digest left unused, so
/// that the number of gates depends only on the total depth. The returned
/// witness holds the chain of digests that `opening_root` computes.
pub fn merkle_opening(composer: &mut Composer, branch: &PoseidonBranch, leaf: Witness) -> (r:
    Witness)
    requires
        branch.wf(),
        allocated(*old(composer), leaf),
    ensures
        extends(*old(composer), *final(composer)),
        allocated(*final(composer), r),
        witness_value(*final(composer), r) == chain_digest(
            branch.levels@,
            witness_value(*old(composer), leaf),
            branch.levels@.len(),
        ),
{
    let ghost c0 = *composer;
    let ghost v = witness_value(c0, leaf);
    let mut cur = leaf;
    let mut i: usize = 0;
    while i < branch.levels.len()
        invariant
            branch.wf(),
            i <= branch.levels@.len(),
            extends(c0, *composer),
            allocated(*composer, cur),
            witness_value(*composer, cur) == chain_digest(branch.levels@, v, i as nat),
        decreases branch.levels@.len() - i,
    {
        let level = branch.levels[i];
        assert(level.wf());
        let ghost before = *composer;
        let mut state = level_witnesses(composer, &level);
        proof {
            lemma_extends_keeps(before, *composer, cur);
        }
        let ghost mid = *composer;
        state[level.offset] = cur;
        assert(witness_values(mid, state@) =~= values(level.leaves@).update(
            level.offset as int,
            chain_digest(branch.levels@, v, i as nat),
        ));
        permute_gadget(composer, &mut state);
        assert(witness_values(*composer, state@)[1] == witness_value(*composer, state@[1]));
        cur = state[1];
        i = i + 1;
    }
    let ghost c1 = *composer;
    let ghost root = witness_value(c1, cur);
    let mut spare = cur;
    let mut j: usize = 0;
    while j < branch.padding_levels.len()
        invariant
            branch.wf(),
            extends(c0, c1),
            extends(c1, *composer),
            allocated(c1, cur),
            witness_value(c1, cur) == root,
            allocated(*composer, spare),
        decreases branch.padding_levels@.len() - j,
    {
        let level = branch.padding_levels[j];
        assert(level.wf());
        let ghost before = *composer;
        let mut state = level_witnesses(composer, &level);
        proof {
            lemma_extends_keeps(before, *composer, spare);
        }
        state[level.offset] = spare;
        permute_gadget(composer, &mut state);
        spare = state[1];
        j = j + 1;
    }
    proof {
        lemma_extends_keeps(c1, *composer, cur);
    }
    cur
}

} // verus!
