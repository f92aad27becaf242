use crate::rules::{accelerated, accelerated_speed, with_speed};
use crate::transformers::Transformer;
use crate::typedef::{Road, Vehicle};
use rayon::iter::{IntoParallelRefIterator, ParallelIterator};
use vstd::prelude::*;

verus! {

/// Raises every vehicle's speed by one, capped by the lane's limit and the
/// gap ahead; all vehicles judged on the road as it was before.
pub struct Accelerator;

/// Relies on rayon: `par_iter` over a slice, `map` and `collect` into a
/// `Vec`, which keeps the slice's length and order.
#[verifier::external_body]
fn accelerate_all(road: &Road) -> (r: Vec<Vehicle>)
    requires
        road.wf(),
    ensures
        r@.len() == road.vehicles@.len(),
        forall|i: int|
            0 <= i < r@.len() ==> #[trigger] r@[i] == with_speed(
                road.vehicles@[i],
                accelerated_speed(
                    road.vehicles@,
                    road.len as int,
                    road.speed_per_lane@,
                    road.vehicles@[i],
                ),
            ),
{
    road.vehicles.par_iter().map(|v| v.accelerate(road)).collect()
}

impl Transformer<Road> for Accelerator {
    open spec fn accepts(&self, r: Road) -> bool {
        r.wf()
    }

    open spec fn relates(&self, before: Road, after: Road) -> bool {
        &&& after.same_frame(before)
        &&& after.vehicles@ == accelerated(
            before.vehicles@,
            before.len as int,
            before.speed_per_lane@,
        )
    }

    fn transform(self, r: Road) -> (out: Road) {
        let vehicles = accelerate_all(&r);
        let mut r = r;
        let ghost before = r;
        r.vehicles = vehicles;
        proof {
            assert(r.vehicles@ =~= accelerated(
                before.vehicles@,
                before.len as int,
                before.speed_per_lane@,
            ));
        }
        r
    }
}

} // verus!
