use crate::road::next_gap;
use crate::rules::with_speed;
use crate::transformers::Transformer;
use crate::typedef::{Road, Vehicle};
use vstd::prelude::*;

verus! {

/// Every vehicle slowed, where needed, to the free cells ahead of it.
pub open spec fn slowed(vs: Seq<Vehicle>, len: int) -> Seq<Vehicle> {
    vs.map_values(
        |v: Vehicle|
            {
                let g = next_gap(vs, len, v.position);
                if g < v.velocity@ {
                    with_speed(v, g)
                } else {
                    v
                }
            },
    )
}

/// Slows every vehicle that would otherwise reach the vehicle ahead of it
/// down to the gap between them; all vehicles judged on the road as it was
/// before.
pub struct Decelerator;

impl Transformer<Road> for Decelerator {
    open spec fn accepts(&self, r: Road) -> bool {
        r.wf()
    }

    open spec fn relates(&self, before: Road, after: Road) -> bool {
        &&& after.same_frame(before)
        &&& after.vehicles@ == slowed(before.vehicles@, before.len as int)
    }

    fn transform(self, r: Road) -> (out: Road) {
        let ghost before = r;
        let mut vehicles: Vec<Vehicle> = Vec::new();
        let mut i: usize = 0;
        while i < r.vehicles.len()
            invariant
                r == before,
                r.wf(),
                i <= r.vehicles@.len(),
                vehicles@ =~= slowed(r.vehicles@, r.len as int).subrange(0, i as int),
            decreases r.vehicles@.len() - i,
        {
            let mut v = r.vehicles[i];
            let g = r.distance_to_next_vehicle(v.position);
            if g < v.velocity.into_inner() {
                v.velocity.0 = g;
            }
            vehicles.push(v);
            i += 1;
        }
        proof {
            assert(vehicles@ =~= slowed(before.vehicles@, before.len as int));
        }
        let mut r = r;
        r.vehicles = vehicles;
        r
    }
}

} // verus!
