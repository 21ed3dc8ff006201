//! The Hades permutation over a state of `WIDTH` field elements.
use crate::scalar::Scalar;
#[allow(deprecated)]
use dusk_hades::{ScalarStrategy, Strategy};
use dusk_plonk::prelude::BlsScalar;
use vstd::prelude::*;

verus! {

/// Number of field elements in a permutation state.
pub const WIDTH: usize = 5;

/// The values of a sequence of scalars.
pub open spec fn values(s: Seq<Scalar>) -> Seq<nat> {
    s.map_values(|x: Scalar| x.value())
}

/// Every scalar of the sequence is canonical.
pub open spec fn all_wf(s: Seq<Scalar>) -> bool {
    forall|i: int| 0 <= i < s.len() ==> #[trigger] s[i].wf()
}

/// The Hades permutation of a state, on the values of its elements.
pub uninterp spec fn hades_permutation(state: Seq<nat>) -> Seq<nat>;

/// The one-element digest of a full state: the second word of its
/// permutation.
pub open spec fn state_digest(state: Seq<nat>) -> nat {
    hades_permutation(state)[1]
}

/// Relies on `dusk_hades::ScalarStrategy::perm`, which permutes a state of
/// `WIDTH` scalars in place; the result depends on the state alone. The words
/// are read with `BlsScalar::from_bytes` and written back with `to_bytes`, so
/// they stay canonical.
#[verifier::external_body]
#[allow(deprecated)]
fn hades_permute(state: &mut [Scalar; WIDTH])
    requires
        all_wf(old(state)@),
    ensures
        values(final(state)@) == hades_permutation(values(old(state)@)),
        all_wf(final(state)@),
{
    let mut s = [BlsScalar::zero(); WIDTH];
    for i in 0..WIDTH {
        s[i] = BlsScalar::from_bytes(&state[i].bytes).unwrap();
    }
    ScalarStrategy::new().perm(&mut s);
    for i in 0..WIDTH {
        state[i] = Scalar { bytes: s[i].to_bytes() };
    }
}

/// Applies the permutation to `state` in place.
pub fn permute(state: &mut [Scalar; WIDTH])
    requires
        all_wf(old(state)@),
    ensures
        values(final(state)@) == hades_permutation(values(old(state)@)),
        all_wf(final(state)@),
{
    hades_permute(state)
}

/// The digest of a full state: the permutation's second word.
pub fn digest(state: &[Scalar; WIDTH]) -> (r: Scalar)
    requires
        all_wf(state@),
    ensures
        r.wf(),
        r.value() == state_digest(values(state@)),
{
    let mut s = *state;
    hades_permute(&mut s);
    assert(values(s@)[1] == s@[1].value());
    s[1]
}

} // verus!
