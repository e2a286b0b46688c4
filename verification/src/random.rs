//! The random choices that the simulation takes from the `rand` crate.
//!
//! Nothing is claimed of which value comes out, only of the range it comes from.

use rand::seq::SliceRandom;
use rand::Rng;
use vstd::prelude::*;

verus! {

/// The thread-local random number generator of the `rand` crate.
#[verifier::external_type_specification]
#[verifier::external_body]
pub struct ExThreadRng(rand::rngs::ThreadRng);

/// Calls `SliceRandom::choose` on `items`: `None` when `items` is empty,
/// otherwise one of its elements, picked at random.
#[verifier::external_body]
pub fn choose_one<T: Copy>(rng: &mut rand::rngs::ThreadRng, items: &Vec<T>) -> (r: Option<T>)
    ensures
        r is None <==> items@.len() == 0,
        r matches Some(x) ==> items@.contains(x),
{
    items.as_slice().choose(rng).copied()
}

/// Calls `Rng::gen_range(low..high)`: a random value in `low..high`.
#[verifier::external_body]
pub fn gen_range_u32(rng: &mut rand::rngs::ThreadRng, low: u32, high: u32) -> (r: u32)
    requires
        low < high,
    ensures
        low <= r < high,
{
    rng.gen_range(low..high)
}

/// Calls `Rng::gen::<bool>()`: a random boolean.
#[verifier::external_body]
pub fn gen_bool(rng: &mut rand::rngs::ThreadRng) -> (r: bool) {
    rng.gen::<bool>()
}

/// `r` lists elements of `items` taken from the distinct positions `idx`.
pub open spec fn picked_from<T>(r: Seq<T>, items: Seq<T>, idx: Seq<int>) -> bool {
    &&& idx.len() == r.len()
    &&& idx.no_duplicates()
    &&& forall|i: int| 0 <= i < idx.len() ==> 0 <= #[trigger] idx[i] < items.len() && r[i] == items[idx[i]]
}

/// Calls `SliceRandom::choose_multiple` on `items`: `min(amount, items.len())`
/// elements taken at random from distinct positions of `items`, in random
/// order. Which positions are taken is left unsaid.
#[verifier::external_body]
pub fn choose_multiple<T: Copy>(rng: &mut rand::rngs::ThreadRng, items: &Vec<T>, amount: usize) -> (r: Vec<T>)
    ensures
        r@.len() == (if amount < items@.len() {
            amount as int
        } else {
            items@.len() as int
        }),
        exists|idx: Seq<int>| #[trigger] picked_from(r@, items@, idx),
{
    items.as_slice().choose_multiple(rng, amount).copied().collect()
}

} // verus!
