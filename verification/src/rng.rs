//! The randomness source of the generator: a seedable uniform generator from
//! the `rand` crate, reached through a few trusted wrappers. Nothing about a
//! drawn value can be promised beyond its range, so every caller is verified
//! for every value the range admits.

use vstd::prelude::*;

verus! {

/// Declares rand::rngs::StdRng, the seedable generator the dungeon generator
/// draws from, so that it can stand in signatures; its value is opaque here.
#[verifier::external_type_specification]
#[verifier::external_body]
pub struct ExStdRng(rand::rngs::StdRng);

/// Relies on rand::Rng::gen_range over an inclusive range: the result is
/// uniform in `[lo, hi]`. gen_range panics only on an empty range, which the
/// precondition rules out.
#[verifier::external_body]
pub(crate) fn rand_in_range(rng: &mut rand::rngs::StdRng, lo: i32, hi: i32) -> (r: i32)
    requires
        lo <= hi,
    ensures
        lo <= r <= hi,
{
    rand::Rng::gen_range(rng, lo..=hi)
}

/// Relies on rand::Rng::gen at type bool (the Standard distribution): a
/// uniform coin flip. Nothing is promised of the outcome.
#[verifier::external_body]
pub(crate) fn rand_bool(rng: &mut rand::rngs::StdRng) -> (r: bool) {
    rand::Rng::gen::<bool>(rng)
}

} // verus!
