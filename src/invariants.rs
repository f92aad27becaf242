//! What holds of every tick and of any number of ticks.
use crate::ring::gap;
use crate::road::{collision_free, next_gap, on_road, shares_lane};
use crate::rules::{
    accelerated, braked, lane_pass, lemma_accelerated_safe, lemma_braked_safe,
    lemma_lane_pass_safe, lemma_tick_safe, moved, tick, with_lane,
};
use crate::typedef::{Fraction, Vehicle, Velocity};
use vstd::prelude::*;

verus! {

/// The vehicles after one tick per entry of `rounds`, each entry holding
/// the braking draws and the lane-change draws of its tick.
pub open spec fn run(
    vs: Seq<Vehicle>,
    len: int,
    limits: Seq<Velocity>,
    p: Fraction,
    rounds: Seq<(Seq<u32>, Seq<u32>)>,
) -> Seq<Vehicle>
    decreases rounds.len(),
{
    if rounds.len() == 0 {
        vs
    } else {
        let before = run(vs, len, limits, p, rounds.drop_last());
        tick(before, len, limits, p, rounds.last().0, rounds.last().1)
    }
}

/// Over any number of ticks, whatever the draws: the number of vehicles
/// stays the same, no two vehicles ever share a cell, and every speed stays
/// between zero and its lane's limit.
pub proof fn lemma_run_safe(
    vs: Seq<Vehicle>,
    len: int,
    limits: Seq<Velocity>,
    p: Fraction,
    rounds: Seq<(Seq<u32>, Seq<u32>)>,
)
    requires
        0 < len <= 255,
        on_road(vs, len, limits),
        collision_free(vs),
        forall|k: int| 0 <= k < rounds.len() ==> (#[trigger] rounds[k]).0.len() == vs.len(),
    ensures
        run(vs, len, limits, p, rounds).len() == vs.len(),
        on_road(run(vs, len, limits, p, rounds), len, limits),
        collision_free(run(vs, len, limits, p, rounds)),
    decreases rounds.len(),
{
    if rounds.len() > 0 {
        let init = rounds.drop_last();
        assert forall|k: int| 0 <= k < init.len() implies (#[trigger] init[k]).0.len()
            == vs.len() by {
            assert(init[k] == rounds[k]);
        }
        lemma_run_safe(vs, len, limits, p, init);
        let before = run(vs, len, limits, p, init);
        assert(rounds.last() == rounds[rounds.len() - 1]);
        lemma_tick_safe(before, len, limits, p, rounds.last().0, rounds.last().1);
    }
}

/// A vehicle below its lane's limit, with more free cells ahead than its
/// speed, and whose braking draw does not make it brake, ends the tick one
/// faster.
pub proof fn lemma_unhindered_acceleration(
    vs: Seq<Vehicle>,
    len: int,
    limits: Seq<Velocity>,
    p: Fraction,
    braking: Seq<u32>,
    lane_draws: Seq<u32>,
    i: int,
)
    requires
        0 < len <= 255,
        on_road(vs, len, limits),
        collision_free(vs),
        braking.len() == vs.len(),
        0 <= i < vs.len(),
        vs[i].velocity@ < limits[vs[i].position.y as int]@,
        next_gap(vs, len, vs[i].position) > vs[i].velocity@,
        !p.admits(braking[i]),
    ensures
        tick(vs, len, limits, p, braking, lane_draws)[i].velocity@ == vs[i].velocity@ + 1,
{
    let a = accelerated(vs, len, limits);
    lemma_accelerated_safe(vs, len, limits);
    let b = braked(a, p, braking);
    lemma_braked_safe(a, len, limits, p, braking);
    assert(a[i].velocity@ == vs[i].velocity@ + 1);
    assert(b[i].velocity@ == vs[i].velocity@ + 1);
    lemma_lane_pass_safe(b, len, limits, lane_draws, vs.len());
    let l = lane_pass(b, len, limits, lane_draws, vs.len());
    assert(l[i] == with_lane(b[i], l[i].position.y as int));
}

/// Within a tick, a vehicle that has changed lane stands where every
/// vehicle behind it in its new lane can keep its speed: none of them
/// has to brake below its current speed on its account.
pub proof fn lemma_lane_change_spares_followers(
    vs: Seq<Vehicle>,
    len: int,
    limits: Seq<Velocity>,
    p: Fraction,
    braking: Seq<u32>,
    lane_draws: Seq<u32>,
    i: int,
    j: int,
)
    requires
        0 < len <= 255,
        on_road(vs, len, limits),
        collision_free(vs),
        braking.len() == vs.len(),
        ({
            let before = braked(accelerated(vs, len, limits), p, braking);
            let after = lane_pass(before, len, limits, lane_draws, vs.len());
            &&& 0 <= i < vs.len()
            &&& 0 <= j < vs.len()
            &&& i != j
            &&& after[i].position.y != before[i].position.y
            &&& shares_lane(after[j], after[i].position)
        }),
    ensures
        ({
            let before = braked(accelerated(vs, len, limits), p, braking);
            let after = lane_pass(before, len, limits, lane_draws, vs.len());
            after[j].velocity@ <= gap(len, after[i].position.x as int, after[j].position.x as int)
        }),
{
    let a = accelerated(vs, len, limits);
    lemma_accelerated_safe(vs, len, limits);
    let b = braked(a, p, braking);
    lemma_braked_safe(a, len, limits, p, braking);
    lemma_lane_pass_safe(b, len, limits, lane_draws, vs.len());
    let after = lane_pass(b, len, limits, lane_draws, vs.len());
    assert(after[i].position != after[j].position);
    assert(shares_lane(after[i], after[j].position));
}

/// A vehicle on the last cell of the road, moving at speed `v`, ends on
/// cell `(len - 1 + v) mod len`.
pub proof fn lemma_last_cell_wraps(vs: Seq<Vehicle>, len: int, i: int)
    requires
        0 < len <= 255,
        0 <= i < vs.len(),
        vs[i].position.x == len - 1,
    ensures
        moved(vs, len)[i].position.x == (len - 1 + vs[i].velocity@) % len,
        moved(vs, len)[i].position.y == vs[i].position.y,
{
    assert(0 <= (len - 1 + vs[i].velocity@) % len < len);
}

} // verus!
