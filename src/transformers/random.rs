use crate::draws::random_draws;
use crate::rules::braked;
use crate::transformers::Transformer;
use crate::typedef::{Road, Vehicle, PARTS};
use vstd::prelude::*;

verus! {

/// Random braking: vehicle `i` slows by one when `draws[i]` falls under the
/// road's probability of braking and it moves at all.
pub struct Randomizer {
    pub draws: Vec<u32>,
}

impl Randomizer {
    /// Braking on the given draws.
    pub fn new(draws: Vec<u32>) -> (r: Self)
        ensures
            r.draws@ == draws@,
    {
        Self { draws }
    }

    /// Braking on fresh random draws, one for each of `n` vehicles.
    pub fn random(n: usize) -> (r: Self)
        ensures
            r.draws@.len() == n,
            forall|i: int| 0 <= i < n ==> #[trigger] r.draws@[i] < PARTS,
    {
        Self { draws: random_draws(n) }
    }
}

impl Transformer<Road> for Randomizer {
    open spec fn accepts(&self, r: Road) -> bool {
        self.draws@.len() == r.vehicles@.len()
    }

    open spec fn relates(&self, before: Road, after: Road) -> bool {
        &&& after.same_frame(before)
        &&& after.vehicles@ == braked(
            before.vehicles@,
            before.deceleration_probability,
            self.draws@,
        )
    }

    fn transform(self, r: Road) -> (out: Road) {
        let ghost before = r;
        let mut vehicles: Vec<Vehicle> = Vec::new();
        let mut i: usize = 0;
        while i < r.vehicles.len()
            invariant
                r == before,
                self.draws@.len() == r.vehicles@.len(),
                i <= r.vehicles@.len(),
                vehicles@ =~= braked(
                    r.vehicles@,
                    r.deceleration_probability,
                    self.draws@,
                ).subrange(0, i as int),
            decreases r.vehicles@.len() - i,
        {
            vehicles.push(r.vehicles[i].decelerate(&r, self.draws[i]));
            i += 1;
        }
        proof {
            assert(vehicles@ =~= braked(
                before.vehicles@,
                before.deceleration_probability,
                self.draws@,
            ));
        }
        let mut r = r;
        r.vehicles = vehicles;
        r
    }
}

} // verus!
