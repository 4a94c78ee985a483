use vstd::prelude::*;

use crate::piece_kind::PieceKind;

verus! {

#[verifier::external_type_specification]
#[verifier::external_body]
pub struct ExThreadRng(rand::rngs::ThreadRng);

/// Relies on rand::thread_rng: a handle to the thread-local generator,
/// seeded by the system. Nothing is assumed of the values it will yield.
#[verifier::external_body]
pub(crate) fn fresh_rng() -> rand::rngs::ThreadRng {
    rand::thread_rng()
}

/// Relies on rand::Rng::gen_range over the nonempty range 0..7: the draw
/// lies in that range. Which value comes back is chance, so nothing more
/// is assumed.
#[verifier::external_body]
pub(crate) fn random_kind_index(rng: &mut rand::rngs::ThreadRng) -> (r: u8)
    ensures
        r < 7,
{
    rand::Rng::gen_range(rng, 0..7u8)
}

/// Relies on rand::seq::SliceRandom::shuffle, a Fisher-Yates shuffle built
/// from in-place swaps: it permutes the elements, so the multiset of
/// elements and the length are kept. The resulting order is chance.
#[verifier::external_body]
pub(crate) fn shuffle_kinds(rng: &mut rand::rngs::ThreadRng, v: &mut Vec<PieceKind>)
    ensures
        final(v)@.len() == old(v)@.len(),
        final(v)@.to_multiset() == old(v)@.to_multiset(),
{
    rand::seq::SliceRandom::shuffle(v.as_mut_slice(), rng)
}

} // verus!
