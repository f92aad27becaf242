use crate::transformers::Transformer;
use crate::typedef::{Position, Road, Vehicle};
use vstd::prelude::*;

verus! {

/// Every vehicle put back on a cell of the road, its `x` taken modulo the
/// road's length.
pub open spec fn recycled(vs: Seq<Vehicle>, len: int) -> Seq<Vehicle> {
    vs.map_values(
        |v: Vehicle|
            Vehicle {
                position: Position { x: (v.position.x as int % len) as u8, y: v.position.y },
                ..v
            },
    )
}

/// Brings vehicles that ran past the end of the road back onto it; of use
/// after a move that does not wrap by itself.
pub struct Recycler;

impl Transformer<Road> for Recycler {
    open spec fn accepts(&self, r: Road) -> bool {
        r.len > 0
    }

    open spec fn relates(&self, before: Road, after: Road) -> bool {
        &&& after.same_frame(before)
        &&& after.vehicles@ == recycled(before.vehicles@, before.len as int)
    }

    fn transform(self, r: Road) -> (out: Road) {
        let ghost before = r;
        let mut vehicles: Vec<Vehicle> = Vec::new();
        let mut i: usize = 0;
        while i < r.vehicles.len()
            invariant
                r == before,
                r.len > 0,
                i <= r.vehicles@.len(),
                vehicles@ =~= recycled(r.vehicles@, r.len as int).subrange(0, i as int),
            decreases r.vehicles@.len() - i,
        {
            let mut v = r.vehicles[i];
            v.position.x = v.position.x % r.len;
            vehicles.push(v);
            i += 1;
        }
        proof {
            assert(vehicles@ =~= recycled(before.vehicles@, before.len as int));
        }
        let mut r = r;
        r.vehicles = vehicles;
        r
    }
}

} // verus!
