use vstd::prelude::*;
use rand::Rng;
use rand::RngCore;
use rand::SeedableRng;
use rand::seq::SliceRandom;
use rand_pcg::Lcg64Xsh32;
use crate::attack_types::AttackType;
use crate::the_world::place::Place;

verus! {

/// The game's random number generator, a PCG-32 stream.
#[verifier::external_type_specification]
#[verifier::external_body]
pub struct ExLcg64Xsh32(Lcg64Xsh32);

/// `Lcg64Xsh32::from_seed` (rand_pcg, through `SeedableRng`): a generator whose
/// whole state comes from the 16 seed bytes. Nothing is stated of the state.
#[verifier::external_body]
pub(crate) fn generator_from_seed(seed: [u8; 16]) -> (r: Lcg64Xsh32) {
    Lcg64Xsh32::from_seed(seed)
}

/// `Lcg64Xsh32::from_entropy` followed by `RngCore::fill_bytes` on an array of
/// ones: 16 bytes drawn from a generator seeded by the operating system. Nothing
/// is stated of them.
#[verifier::external_body]
pub(crate) fn entropy_seed() -> (r: [u8; 16]) {
    let mut new_seed: [u8; 16] = [1; 16];
    Lcg64Xsh32::from_entropy().fill_bytes(&mut new_seed);
    new_seed
}

/// `Rng::gen_range(low..=high)` on `u64` (rand): a value with
/// `low <= r <= high`; rand panics on an empty range, which `requires` excludes.
#[verifier::external_body]
pub(crate) fn gen_range_inclusive_u64(rng: &mut Lcg64Xsh32, low: u64, high: u64) -> (r: u64)
    requires
        low <= high,
    ensures
        low <= r <= high,
{
    rng.gen_range(low..=high)
}

/// `Rng::gen_range(low..high)` on `u64` (rand): a value with `low <= r < high`.
#[verifier::external_body]
pub(crate) fn gen_range_u64(rng: &mut Lcg64Xsh32, low: u64, high: u64) -> (r: u64)
    requires
        low < high,
    ensures
        low <= r < high,
{
    rng.gen_range(low..high)
}

/// `Rng::gen_range(low..high)` on `usize` (rand): a value with `low <= r < high`.
#[verifier::external_body]
pub(crate) fn gen_range_usize(rng: &mut Lcg64Xsh32, low: usize, high: usize) -> (r: usize)
    requires
        low < high,
    ensures
        low <= r < high,
{
    rng.gen_range(low..high)
}

/// `Rng::gen_range(low..high)` on `u8` (rand): a value with `low <= r < high`.
#[verifier::external_body]
pub(crate) fn gen_range_u8(rng: &mut Lcg64Xsh32, low: u8, high: u8) -> (r: u8)
    requires
        low < high,
    ensures
        low <= r < high,
{
    rng.gen_range(low..high)
}

/// `Rng::gen_range(low..high)` on `i32` (rand): a value with `low <= r < high`.
#[verifier::external_body]
pub(crate) fn gen_range_i32(rng: &mut Lcg64Xsh32, low: i32, high: i32) -> (r: i32)
    requires
        low < high,
    ensures
        low <= r < high,
{
    rng.gen_range(low..high)
}

/// `SliceRandom::choose_mut` (rand) on the places, followed by writing `place`
/// into the slot it picks: on a non-empty slice it picks an index below the
/// length and never gives `None`. Which index is not stated.
#[verifier::external_body]
pub(crate) fn replace_random_place(rng: &mut Lcg64Xsh32, places: &mut Vec<Place>, place: Place)
    requires
        old(places)@.len() > 0,
    ensures
        exists|i: int| 0 <= i < old(places)@.len() && final(places)@ == old(places)@.update(i, place),
{
    *places.choose_mut(rng).unwrap() = place;
}

/// `SliceRandom::choose` (rand) on a slice of attack types: on a non-empty slice
/// it gives one of its elements and never `None`. Which element is not stated.
#[verifier::external_body]
pub(crate) fn choose_attack_type(rng: &mut Lcg64Xsh32, candidates: &Vec<AttackType>) -> (r: AttackType)
    requires
        candidates@.len() > 0,
    ensures
        candidates@.contains(r),
{
    *candidates.choose(rng).unwrap()
}

} // verus!
