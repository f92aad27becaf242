//! Random numbers. Every rule that depends on chance takes its draws as
//! arguments; only the functions here produce them.
use rand::Rng;
use crate::typedef::PARTS;
use vstd::prelude::*;

verus! {

/// Relies on rand's `thread_rng().gen_range(0..bound)`: a value drawn
/// uniformly from `[0, bound)`; the range must not be empty.
#[verifier::external_body]
pub(crate) fn random_below(bound: u32) -> (r: u32)
    requires
        bound > 0,
    ensures
        r < bound,
{
    rand::thread_rng().gen_range(0..bound)
}

/// `n` independent draws, each uniform on `[0, PARTS)`: one per vehicle,
/// to be held against a `Fraction`.
pub fn random_draws(n: usize) -> (r: Vec<u32>)
    ensures
        r@.len() == n,
        forall|i: int| 0 <= i < n ==> #[trigger] r@[i] < PARTS,
{
    let mut r: Vec<u32> = Vec::new();
    let mut i: usize = 0;
    while i < n
        invariant
            i <= n,
            r@.len() == i,
            forall|k: int| 0 <= k < i ==> #[trigger] r@[k] < PARTS,
        decreases n - i,
    {
        r.push(random_below(PARTS));
        i += 1;
    }
    r
}

} // verus!
