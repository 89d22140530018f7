use rand::seq::SliceRandom;
use rand::Rng;
use vstd::prelude::*;

verus! {

/// Relies on `rand::Rng::gen_range` over `rand::thread_rng`: a value of `0..n`;
/// it panics on an empty range, hence `n > 0`.
#[verifier::external_body]
pub(crate) fn random_below(n: usize) -> (r: usize)
    requires
        n > 0,
    ensures
        r < n,
{
    rand::thread_rng().gen_range(0..n)
}

/// Relies on `rand::seq::SliceRandom::choose` over `rand::thread_rng`: one of
/// the entries of a non-empty slice.
#[verifier::external_body]
pub(crate) fn choose_one<T: Copy>(items: &Vec<T>) -> (r: T)
    requires
        items@.len() > 0,
    ensures
        items@.contains(r),
{
    *items.choose(&mut rand::thread_rng()).unwrap()
}

/// Relies on `rand::seq::SliceRandom::shuffle` over `rand::thread_rng`: the
/// entries are permuted in place.
#[verifier::external_body]
pub(crate) fn shuffle_in_place(v: &mut Vec<u8>)
    ensures
        final(v)@.to_multiset() == old(v)@.to_multiset(),
{
    v.shuffle(&mut rand::thread_rng())
}

} // verus!
