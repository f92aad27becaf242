use crate::rules::moved;
use crate::transformers::Transformer;
use crate::typedef::{Road, Vehicle};
use vstd::prelude::*;

verus! {

/// Drives every vehicle forward by its speed, wrapping round the road.
pub struct Mover;

impl Transformer<Road> for Mover {
    open spec fn accepts(&self, r: Road) -> bool {
        r.len > 0
    }

    open spec fn relates(&self, before: Road, after: Road) -> bool {
        &&& after.same_frame(before)
        &&& after.vehicles@ == moved(before.vehicles@, before.len as int)
    }

    fn transform(self, r: Road) -> (out: Road) {
        let ghost before = r;
        let mut vehicles: Vec<Vehicle> = Vec::new();
        let mut i: usize = 0;
        while i < r.vehicles.len()
            invariant
                r == before,
                r.len > 0,
                i <= r.vehicles@.len(),
                vehicles@ =~= moved(r.vehicles@, r.len as int).subrange(0, i as int),
            decreases r.vehicles@.len() - i,
        {
            vehicles.push(r.vehicles[i].update_position(&r));
            i += 1;
        }
        proof {
            assert(vehicles@ =~= moved(before.vehicles@, before.len as int));
        }
        let mut r = r;
        r.vehicles = vehicles;
        r
    }
}

} // verus!
