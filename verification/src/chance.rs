//! The boundary to the random number generator, the `rand` crate.
//!
//! Nothing in this file is proved. Each function wraps one call and states
//! only what holds of every outcome.

use rand::seq::SliceRandom;
use rand::Rng;
use vstd::prelude::*;
use crate::board::Move;

verus! {

/// `rand::seq::SliceRandom::shuffle`, fed by `rand::thread_rng`: reorders the
/// moves by a series of swaps, so the same moves are there afterwards, each
/// as often as before.
#[verifier::external_body]
pub(crate) fn shuffle_moves<'moves>(moves: &mut Vec<&'moves Move>)
    ensures
        final(moves)@.to_multiset() == old(moves)@.to_multiset(),
{
    moves.shuffle(&mut rand::thread_rng());
}

/// `rand::Rng::gen` for `i64`, fed by `rand::thread_rng`: any number may come
/// back.
#[verifier::external_body]
pub(crate) fn random_tiebreak() -> i64 {
    rand::thread_rng().gen::<i64>()
}

} // verus!
