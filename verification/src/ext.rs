//! The library's calls into outside crates and into the parts of std
//! that vstd leaves unspecified, each behind a contract.

use vstd::prelude::*;
use crate::cards::{Card, no_repeats};
use rand::seq::SliceRandom;
use std::hash::Hasher;

verus! {

/// Relies on rand's `SliceRandom::shuffle`, which reorders the slice in
/// place by element swaps: the cards afterwards are a permutation of
/// the cards before, and no card is duplicated or lost.
#[verifier::external_body]
pub(crate) fn shuffle_cards(cards: &mut Vec<Card>)
    ensures
        final(cards)@.len() == old(cards)@.len(),
        final(cards)@.to_multiset() == old(cards)@.to_multiset(),
        no_repeats(old(cards)@) ==> no_repeats(final(cards)@),
{
    cards.shuffle(&mut rand::thread_rng());
}

/// Relies on chrono's `Utc::now`: the current time, taken as
/// microseconds since the Unix epoch. The result depends on the clock,
/// so nothing is promised of it.
#[verifier::external_body]
pub fn now_micros() -> u64 {
    chrono::Utc::now().timestamp_micros() as u64
}

/// Relies on rand's `random`: a uniformly random 128-bit number for
/// collision-safe match identifiers. Nothing can be promised of a
/// random value.
#[verifier::external_body]
pub(crate) fn random_id128() -> u128 {
    rand::random::<u128>()
}

/// Relies on std's `str` equality: true exactly when the two strings
/// hold the same characters.
#[verifier::external_body]
pub fn str_eq(a: &str, b: &str) -> (r: bool)
    ensures
        r == (a@ == b@),
{
    a == b
}

/// Relies on std's `DefaultHasher` together with the type's `Hash`
/// impl: a 64-bit digest of the value. std does not promise the digest
/// stable across releases, so nothing is stated of the result.
#[verifier::external_body]
pub(crate) fn hash64<T: std::hash::Hash>(value: &T) -> u64 {
    let mut hasher = std::collections::hash_map::DefaultHasher::new();
    value.hash(&mut hasher);
    hasher.finish()
}

} // verus!
