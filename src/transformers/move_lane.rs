use crate::draws::random_draws;
use crate::road::headway_kept;
use crate::rules::{lane_pass, lemma_lane_change_safe};
use crate::transformers::Transformer;
use crate::typedef::{Road, PARTS};
use vstd::prelude::*;

verus! {

/// Lane changes: vehicle after vehicle, in the order of the road's list,
/// each decides on the road as the ones before it left it, so that no two
/// of them can enter the same cell. Vehicle `i` changes lane when its
/// chosen direction's chance admits `draws[i]`.
pub struct LaneMover {
    pub draws: Vec<u32>,
}

impl LaneMover {
    /// Lane changes on the given draws.
    pub fn new(draws: Vec<u32>) -> (r: Self)
        ensures
            r.draws@ == draws@,
    {
        Self { draws }
    }

    /// Lane changes on fresh random draws, one for each of `n` vehicles.
    pub fn random(n: usize) -> (r: Self)
        ensures
            r.draws@.len() == n,
            forall|i: int| 0 <= i < n ==> #[trigger] r.draws@[i] < PARTS,
    {
        Self { draws: random_draws(n) }
    }
}

impl Transformer<Road> for LaneMover {
    /// A well-formed road on which every vehicle can drive its speed without
    /// reaching the one ahead, and a draw for each vehicle.
    open spec fn accepts(&self, r: Road) -> bool {
        &&& r.wf()
        &&& headway_kept(r.vehicles@, r.len as int)
        &&& self.draws@.len() == r.vehicles@.len()
    }

    open spec fn relates(&self, before: Road, after: Road) -> bool {
        &&& after.same_frame(before)
        &&& after.vehicles@ == lane_pass(
            before.vehicles@,
            before.len as int,
            before.speed_per_lane@,
            self.draws@,
            before.vehicles@.len(),
        )
    }

    fn transform(self, r: Road) -> (out: Road) {
        let ghost before = r;
        let mut r = r;
        let n = r.vehicles.len();
        let mut i: usize = 0;
        while i < n
            invariant
                r.same_frame(before),
                r.wf(),
                headway_kept(r.vehicles@, r.len as int),
                n == before.vehicles@.len(),
                self.draws@.len() == n,
                i <= n,
                r.vehicles@ == lane_pass(
                    before.vehicles@,
                    before.len as int,
                    before.speed_per_lane@,
                    self.draws@,
                    i as nat,
                ),
                r.vehicles@.len() == n,
            decreases n - i,
        {
            let v = r.vehicles[i];
            proof {
                lemma_lane_change_safe(
                    r.vehicles@,
                    r.len as int,
                    r.speed_per_lane@,
                    i as int,
                    self.draws@[i as int],
                );
            }
            let changed = v.update_lane(&r, self.draws[i]);
            r.vehicles.set(i, changed);
            i += 1;
        }
        r
    }
}

} // verus!
