//! A multi-lane Nagel-Schreckenberg traffic model on a circular road.
//!
//! Each tick applies, in this order: acceleration, random braking, lane
//! changes and the move forward. A well-formed road stays well-formed: no
//! two vehicles on one cell, every speed within its lane's limit.
use vstd::prelude::*;

pub mod draws;
pub mod invariants;
pub mod model;
pub mod ring;
pub mod road;
pub mod rules;
pub mod transformers;
pub mod typedef;
pub mod vehicle;

use crate::draws::random_draws;
use crate::model::Model;
use crate::rules::{
    accelerated, braked, is_tick_of, lane_pass, lemma_accelerated_safe, lemma_braked_safe,
    lemma_lane_pass_safe, lemma_moved_safe, tick,
};
use crate::transformers::{Accelerator, LaneMover, Mover, Randomizer};

pub use crate::typedef::{Position, Road, Vehicle, Velocity};

verus! {

/// One tick on the given draws: `braking[i]` decides whether vehicle `i`
/// brakes, `lane_draws[i]` whether it takes the lane change it chose.
pub fn step_with_draws(road: Road, braking: Vec<u32>, lane_draws: Vec<u32>) -> (r: Road)
    requires
        road.wf(),
        braking@.len() == road.vehicles@.len(),
        lane_draws@.len() == road.vehicles@.len(),
    ensures
        r.same_frame(road),
        r.wf(),
        r.vehicles@ == tick(
            road.vehicles@,
            road.len as int,
            road.speed_per_lane@,
            road.deceleration_probability,
            braking@,
            lane_draws@,
        ),
        r.vehicles@.len() == road.vehicles@.len(),
{
    let ghost len = road.len as int;
    let ghost limits = road.speed_per_lane@;
    let ghost vs = road.vehicles@;
    let m = Model::new(road);
    let m = m.apply(Accelerator);
    proof {
        lemma_accelerated_safe(vs, len, limits);
    }
    let m = m.apply(Randomizer::new(braking));
    proof {
        let a = accelerated(vs, len, limits);
        lemma_braked_safe(a, len, limits, m.0.deceleration_probability, braking@);
    }
    let m = m.apply(LaneMover::new(lane_draws));
    proof {
        let b = braked(accelerated(vs, len, limits), m.0.deceleration_probability, braking@);
        lemma_lane_pass_safe(b, len, limits, lane_draws@, vs.len());
        lemma_moved_safe(lane_pass(b, len, limits, lane_draws@, vs.len()), len, limits);
    }
    let m = m.apply(Mover);
    m.finish()
}

/// One tick on fresh random draws. Whatever the draws, the result is a
/// tick of `road` on some draws, and a well-formed road.
pub fn step(road: Road) -> (r: Road)
    requires
        road.wf(),
    ensures
        r.same_frame(road),
        r.wf(),
        r.vehicles@.len() == road.vehicles@.len(),
        is_tick_of(road, r.vehicles@),
{
    let n = road.vehicles.len();
    let braking = random_draws(n);
    let lane_draws = random_draws(n);
    step_with_draws(road, braking, lane_draws)
}

} // verus!
