//! The rules of one tick, as mathematics: acceleration, random braking,
//! lane changes and movement, and the facts that make a tick safe.
use crate::ring::{gap, lemma_moves_stay_apart, lemma_nearer_behind};
use crate::road::{
    behind_index, collision_free, headway_kept, lemma_behind_index, lemma_headway_within_next_gap,
    lemma_max_speed_below_gaps, max_speed_at, occupied, on_road, shares_lane,
};
use crate::typedef::{Fraction, Position, Road, Vehicle, Velocity, PARTS};
use vstd::prelude::*;

verus! {

/// `v` driving at speed `s`.
pub open spec fn with_speed(v: Vehicle, s: int) -> Vehicle {
    Vehicle { velocity: Velocity(s as u8), ..v }
}

/// `v` moved sideways into lane `lane`.
pub open spec fn with_lane(v: Vehicle, lane: int) -> Vehicle {
    Vehicle { position: Position { x: v.position.x, y: lane as u8 }, ..v }
}

/// Speed after acceleration: one more than before, but no more than the
/// cap at the vehicle's cell.
pub open spec fn accelerated_speed(
    vs: Seq<Vehicle>,
    len: int,
    limits: Seq<Velocity>,
    v: Vehicle,
) -> int {
    let up = v.velocity@ + 1;
    let cap = max_speed_at(vs, len, limits, v.position);
    if up < cap {
        up
    } else {
        cap
    }
}

/// All vehicles accelerated at once, each against the same road `vs`.
pub open spec fn accelerated(vs: Seq<Vehicle>, len: int, limits: Seq<Velocity>) -> Seq<Vehicle> {
    vs.map_values(|v: Vehicle| with_speed(v, accelerated_speed(vs, len, limits, v)))
}

/// Speed after a braking draw: one less if the draw falls under the
/// probability of braking and the vehicle moves at all.
pub open spec fn braked_speed(v: Vehicle, p: Fraction, draw: u32) -> int {
    if p.admits(draw) && v.velocity@ > 0 {
        v.velocity@ - 1
    } else {
        v.velocity@ as int
    }
}

/// Each vehicle `i` braked on draw `draws[i]`.
pub open spec fn braked(vs: Seq<Vehicle>, p: Fraction, draws: Seq<u32>) -> Seq<Vehicle> {
    Seq::new(vs.len(), |i: int| with_speed(vs[i], braked_speed(vs[i], p, draws[i])))
}

/// The nearest vehicle behind `target` would not have to brake if a
/// vehicle appeared there.
pub open spec fn behind_clear(vs: Seq<Vehicle>, len: int, target: Position) -> bool {
    let b = behind_index(vs, len, target);
    b == -1 || gap(len, target.x as int, vs[b].position.x as int) > vs[b].velocity@
}

/// `v` may shift into `lane`: the lane exists, the cell beside `v` is
/// free, it allows a strictly higher speed than `v`'s own cell, and the
/// vehicle behind in that lane is not forced to brake.
pub open spec fn lane_open(
    vs: Seq<Vehicle>,
    len: int,
    limits: Seq<Velocity>,
    v: Vehicle,
    lane: int,
) -> bool {
    let target = Position { x: v.position.x, y: lane as u8 };
    &&& 0 <= lane < limits.len()
    &&& !occupied(vs, target)
    &&& max_speed_at(vs, len, limits, target) > max_speed_at(vs, len, limits, v.position)
    &&& behind_clear(vs, len, target)
}

/// The lane `v` would shift into: of the open neighbour lanes, the one that
/// allows the higher speed, the lower lane on a tie.
pub open spec fn chosen_lane(
    vs: Seq<Vehicle>,
    len: int,
    limits: Seq<Velocity>,
    v: Vehicle,
) -> Option<int> {
    let right = v.position.y - 1;
    let left = v.position.y + 1;
    let right_open = lane_open(vs, len, limits, v, right);
    let left_open = lane_open(vs, len, limits, v, left);
    if right_open && left_open {
        if max_speed_at(vs, len, limits, Position { x: v.position.x, y: left as u8 })
            > max_speed_at(vs, len, limits, Position { x: v.position.x, y: right as u8 }) {
            Some(left)
        } else {
            Some(right)
        }
    } else if right_open {
        Some(right)
    } else if left_open {
        Some(left)
    } else {
        None
    }
}

/// `v` after its lane-change decision, taken on the road `vs` and the
/// draw `draw` against its chance of moving in the chosen direction.
pub open spec fn lane_changed(
    vs: Seq<Vehicle>,
    len: int,
    limits: Seq<Velocity>,
    v: Vehicle,
    draw: u32,
) -> Vehicle {
    match chosen_lane(vs, len, limits, v) {
        Some(lane) => {
            let chance = if lane > v.position.y {
                v.move_left_chance
            } else {
                v.move_right_chance
            };
            if chance.admits(draw) {
                with_lane(v, lane)
            } else {
                v
            }
        },
        None => v,
    }
}

/// The road after the first `n` vehicles took their lane-change decision
/// in turn, each one on the road as the ones before it left it.
pub open spec fn lane_pass(
    vs: Seq<Vehicle>,
    len: int,
    limits: Seq<Velocity>,
    draws: Seq<u32>,
    n: nat,
) -> Seq<Vehicle>
    decreases n,
{
    if n == 0 {
        vs
    } else {
        let w = lane_pass(vs, len, limits, draws, (n - 1) as nat);
        let k = n - 1;
        if k < w.len() {
            w.update(k, lane_changed(w, len, limits, w[k], draws[k]))
        } else {
            w
        }
    }
}

/// `v` after driving its speed forward, wrapping past the end of the road.
pub open spec fn moved_vehicle(v: Vehicle, len: int) -> Vehicle {
    Vehicle {
        position: Position {
            x: ((v.position.x + v.velocity@) % len) as u8,
            y: v.position.y,
        },
        ..v
    }
}

/// Every vehicle driven forward by its speed.
pub open spec fn moved(vs: Seq<Vehicle>, len: int) -> Seq<Vehicle> {
    vs.map_values(|v: Vehicle| moved_vehicle(v, len))
}

/// One tick: accelerate, brake at random, change lanes, move.
pub open spec fn tick(
    vs: Seq<Vehicle>,
    len: int,
    limits: Seq<Velocity>,
    p: Fraction,
    braking: Seq<u32>,
    lane_draws: Seq<u32>,
) -> Seq<Vehicle> {
    let after_brakes = braked(accelerated(vs, len, limits), p, braking);
    moved(lane_pass(after_brakes, len, limits, lane_draws, vs.len()), len)
}

/// `after` is what a tick of `road` makes of its vehicles on some draws,
/// each on `[0, PARTS)`.
pub open spec fn is_tick_of(road: Road, after: Seq<Vehicle>) -> bool {
    exists|braking: Seq<u32>, lane_draws: Seq<u32>|
        {
            &&& braking.len() == road.vehicles@.len()
            &&& lane_draws.len() == road.vehicles@.len()
            &&& forall|i: int| 0 <= i < braking.len() ==> #[trigger] braking[i] < PARTS
            &&& forall|i: int| 0 <= i < lane_draws.len() ==> #[trigger] lane_draws[i] < PARTS
            &&& after == tick(
                road.vehicles@,
                road.len as int,
                road.speed_per_lane@,
                road.deceleration_probability,
                braking,
                lane_draws,
            )
        }
}

/// Vehicles `a` and `b` stand in the same places and differ at most in speed.
pub open spec fn same_places(a: Seq<Vehicle>, b: Seq<Vehicle>) -> bool {
    &&& a.len() == b.len()
    &&& forall|i: int| 0 <= i < a.len() ==> (#[trigger] a[i]).position == b[i].position
}

/// On a road with no two vehicles on one cell, acceleration leaves every
/// vehicle within its limit and behind the free cells ahead of it.
pub proof fn lemma_accelerated_safe(vs: Seq<Vehicle>, len: int, limits: Seq<Velocity>)
    requires
        0 < len,
        on_road(vs, len, limits),
        collision_free(vs),
    ensures
        on_road(accelerated(vs, len, limits), len, limits),
        collision_free(accelerated(vs, len, limits)),
        headway_kept(accelerated(vs, len, limits), len),
        same_places(accelerated(vs, len, limits), vs),
{
    let a = accelerated(vs, len, limits);
    assert forall|i: int| 0 <= i < vs.len() implies {
        &&& (#[trigger] a[i]).position == vs[i].position
        &&& a[i].velocity@ == accelerated_speed(vs, len, limits, vs[i])
        &&& a[i].velocity@ <= limits[vs[i].position.y as int]@
        &&& forall|k: int|
            0 <= k < vs.len() && shares_lane(#[trigger] vs[k], vs[i].position) ==> a[i].velocity@
                <= gap(len, vs[k].position.x as int, vs[i].position.x as int)
    } by {
        lemma_max_speed_below_gaps(vs, len, limits, vs[i].position);
    }
    assert forall|i: int, j: int|
        0 <= i < a.len() && 0 <= j < a.len() && i != j && shares_lane(
            #[trigger] a[j],
            (#[trigger] a[i]).position,
        ) implies a[i].velocity@ <= gap(len, a[j].position.x as int, a[i].position.x as int) by {
        assert(shares_lane(vs[j], vs[i].position));
    }
    assert forall|i: int, j: int|
        0 <= i < a.len() && 0 <= j < a.len() && i != j implies (#[trigger] a[i]).position
        != (#[trigger] a[j]).position by {
        assert(vs[i].position != vs[j].position);
    }
}

/// Braking keeps what acceleration established.
pub proof fn lemma_braked_safe(
    vs: Seq<Vehicle>,
    len: int,
    limits: Seq<Velocity>,
    p: Fraction,
    draws: Seq<u32>,
)
    requires
        on_road(vs, len, limits),
        collision_free(vs),
        headway_kept(vs, len),
        draws.len() == vs.len(),
    ensures
        on_road(braked(vs, p, draws), len, limits),
        collision_free(braked(vs, p, draws)),
        headway_kept(braked(vs, p, draws), len),
        same_places(braked(vs, p, draws), vs),
{
    let b = braked(vs, p, draws);
    assert forall|i: int| 0 <= i < vs.len() implies {
        &&& (#[trigger] b[i]).position == vs[i].position
        &&& b[i].velocity@ <= vs[i].velocity@
    } by {}
    assert forall|i: int, j: int|
        0 <= i < b.len() && 0 <= j < b.len() && i != j && shares_lane(
            #[trigger] b[j],
            (#[trigger] b[i]).position,
        ) implies b[i].velocity@ <= gap(len, b[j].position.x as int, b[i].position.x as int) by {
        assert(shares_lane(vs[j], vs[i].position));
    }
    assert forall|i: int, j: int|
        0 <= i < b.len() && 0 <= j < b.len() && i != j implies (#[trigger] b[i]).position
        != (#[trigger] b[j]).position by {
        assert(vs[i].position != vs[j].position);
    }
}

/// Vehicles `a` and `b` differ at most in the lanes they drive in.
pub open spec fn same_but_lanes(a: Seq<Vehicle>, b: Seq<Vehicle>) -> bool {
    &&& a.len() == b.len()
    &&& forall|i: int|
        0 <= i < a.len() ==> (#[trigger] a[i]) == with_lane(b[i], a[i].position.y as int)
}

/// One vehicle's lane change keeps the road safe: the cell it enters was
/// free, it fits in the gap ahead there, and nobody behind it has to brake.
pub proof fn lemma_lane_change_safe(
    w: Seq<Vehicle>,
    len: int,
    limits: Seq<Velocity>,
    i: int,
    draw: u32,
)
    requires
        0 < len,
        on_road(w, len, limits),
        collision_free(w),
        headway_kept(w, len),
        0 <= i < w.len(),
    ensures
        ({
            let w2 = w.update(i, lane_changed(w, len, limits, w[i], draw));
            &&& on_road(w2, len, limits)
            &&& collision_free(w2)
            &&& headway_kept(w2, len)
            &&& same_but_lanes(w2, w)
        }),
{
    let v = w[i];
    let c = lane_changed(w, len, limits, v, draw);
    let w2 = w.update(i, c);
    assert forall|k: int| 0 <= k < w.len() implies (#[trigger] w[k]) == with_lane(
        w[k],
        w[k].position.y as int,
    ) by {}
    if c == v {
        assert(w2 =~= w);
        return;
    }
    let t = chosen_lane(w, len, limits, v)->Some_0;
    assert(c == with_lane(v, t));
    let target = Position { x: v.position.x, y: t as u8 };
    assert(c.position == target);
    assert(lane_open(w, len, limits, v, t));
    // The mover's speed is below what its old cell allowed, hence below
    // what the new one allows.
    lemma_headway_within_next_gap(w, len, i);
    lemma_max_speed_below_gaps(w, len, limits, v.position);
    lemma_max_speed_below_gaps(w, len, limits, target);
    assert(v.velocity@ <= max_speed_at(w, len, limits, v.position));
    assert(v.velocity@ < max_speed_at(w, len, limits, target));
    lemma_behind_index(w, len, target);
    let b = behind_index(w, len, target);
    assert forall|k: int| 0 <= k < w.len() && k != i implies (#[trigger] w[k]).position
        != target by {
        if w[k].position == target {
            assert(occupied(w, target));
        }
    }
    // The cell entered was free.
    assert forall|j: int, k: int|
        0 <= j < w2.len() && 0 <= k < w2.len() && j != k implies (#[trigger] w2[j]).position
        != (#[trigger] w2[k]).position by {
        if j != i && k != i {
            assert(w[j].position != w[k].position);
        }
    }
    // Headway of every pair, the mover's included.
    assert forall|j: int, k: int|
        0 <= j < w2.len() && 0 <= k < w2.len() && j != k && shares_lane(
            #[trigger] w2[k],
            (#[trigger] w2[j]).position,
        ) implies w2[j].velocity@ <= gap(len, w2[k].position.x as int, w2[j].position.x as int) by {
        if j == i {
            assert(shares_lane(w[k], target));
        } else if k == i {
            assert(shares_lane(w[j], target));
            assert(b != -1);
            assert(b != i);
            if j != b {
                assert(w[b].position != w[j].position);
                assert(shares_lane(w[b], w[j].position));
                lemma_nearer_behind(
                    len,
                    target.x as int,
                    w[b].position.x as int,
                    w[j].position.x as int,
                );
            }
        } else {
            assert(shares_lane(w[k], w[j].position));
        }
    }
}

/// Lane changes taken one vehicle after another keep the road safe, and
/// change nothing but lanes.
pub proof fn lemma_lane_pass_safe(
    vs: Seq<Vehicle>,
    len: int,
    limits: Seq<Velocity>,
    draws: Seq<u32>,
    n: nat,
)
    requires
        0 < len,
        on_road(vs, len, limits),
        collision_free(vs),
        headway_kept(vs, len),
    ensures
        on_road(lane_pass(vs, len, limits, draws, n), len, limits),
        collision_free(lane_pass(vs, len, limits, draws, n)),
        headway_kept(lane_pass(vs, len, limits, draws, n), len),
        same_but_lanes(lane_pass(vs, len, limits, draws, n), vs),
    decreases n,
{
    if n == 0 {
        assert forall|k: int| 0 <= k < vs.len() implies (#[trigger] vs[k]) == with_lane(
            vs[k],
            vs[k].position.y as int,
        ) by {}
    } else {
        let w = lane_pass(vs, len, limits, draws, (n - 1) as nat);
        lemma_lane_pass_safe(vs, len, limits, draws, (n - 1) as nat);
        let k = n - 1;
        if k < w.len() {
            lemma_lane_change_safe(w, len, limits, k, draws[k]);
            let w2 = lane_pass(vs, len, limits, draws, n);
            assert forall|j: int| 0 <= j < w2.len() implies (#[trigger] w2[j]) == with_lane(
                vs[j],
                w2[j].position.y as int,
            ) by {
                assert(w2[j] == with_lane(w[j], w2[j].position.y as int));
                assert(w[j] == with_lane(vs[j], w[j].position.y as int));
            }
        }
    }
}

/// Moving every vehicle by its speed, when each speed fits in the free
/// cells ahead, puts no two vehicles on one cell.
pub proof fn lemma_moved_safe(vs: Seq<Vehicle>, len: int, limits: Seq<Velocity>)
    requires
        0 < len <= 255,
        on_road(vs, len, limits),
        collision_free(vs),
        headway_kept(vs, len),
    ensures
        on_road(moved(vs, len), len, limits),
        collision_free(moved(vs, len)),
        moved(vs, len).len() == vs.len(),
{
    let m = moved(vs, len);
    assert forall|i: int| 0 <= i < vs.len() implies {
        &&& (#[trigger] m[i]).position.y == vs[i].position.y
        &&& m[i].velocity == vs[i].velocity
        &&& m[i].position.x == (vs[i].position.x + vs[i].velocity@) % len
        &&& m[i].position.x < len
    } by {
        let a = vs[i].position.x + vs[i].velocity@;
        assert(0 <= a % len < len);
    }
    assert forall|i: int, j: int|
        0 <= i < m.len() && 0 <= j < m.len() && i != j implies (#[trigger] m[i]).position
        != (#[trigger] m[j]).position by {
        if vs[i].position.y == vs[j].position.y {
            assert(vs[i].position != vs[j].position);
            assert(shares_lane(vs[j], vs[i].position));
            assert(shares_lane(vs[i], vs[j].position));
            lemma_moves_stay_apart(
                len,
                vs[i].position.x as int,
                vs[i].velocity@ as int,
                vs[j].position.x as int,
                vs[j].velocity@ as int,
            );
        }
    }
}

/// A tick keeps a road safe: every vehicle on a cell of its own, within
/// its lane's speed limit.
pub proof fn lemma_tick_safe(
    vs: Seq<Vehicle>,
    len: int,
    limits: Seq<Velocity>,
    p: Fraction,
    braking: Seq<u32>,
    lane_draws: Seq<u32>,
)
    requires
        0 < len <= 255,
        on_road(vs, len, limits),
        collision_free(vs),
        braking.len() == vs.len(),
    ensures
        on_road(tick(vs, len, limits, p, braking, lane_draws), len, limits),
        collision_free(tick(vs, len, limits, p, braking, lane_draws)),
        tick(vs, len, limits, p, braking, lane_draws).len() == vs.len(),
{
    let a = accelerated(vs, len, limits);
    lemma_accelerated_safe(vs, len, limits);
    let b = braked(a, p, braking);
    lemma_braked_safe(a, len, limits, p, braking);
    lemma_lane_pass_safe(b, len, limits, lane_draws, vs.len());
    lemma_moved_safe(lane_pass(b, len, limits, lane_draws, vs.len()), len, limits);
}

} // verus!
