//! The road and the questions the rules ask of it: who is ahead, who is
//! behind, and how fast a vehicle may go on a given cell.
use crate::ring::{gap, lemma_gap_unfold};
use crate::draws::random_below;
use crate::rules::is_tick_of;
use crate::typedef::{Fraction, Position, Quotient, Road, Vehicle, Velocity, PARTS};
use vstd::prelude::*;
use vstd::set_lib::{lemma_int_range, lemma_len_subset, set_int_range};

verus! {

/// What `distance_to_next_vehicle` reports for a lane with nobody else in it.
pub const NO_VEHICLE_AHEAD: u8 = 255;

/// `other` stands in the lane of `pos`, on another cell.
pub open spec fn shares_lane(other: Vehicle, pos: Position) -> bool {
    other.position.y == pos.y && other.position.x != pos.x
}

/// Every vehicle stands on the road, within its lane's speed limit.
pub open spec fn on_road(vs: Seq<Vehicle>, len: int, limits: Seq<Velocity>) -> bool {
    forall|i: int|
        0 <= i < vs.len() ==> {
            &&& (#[trigger] vs[i]).position.x < len
            &&& vs[i].position.y < limits.len()
            &&& vs[i].velocity@ <= limits[vs[i].position.y as int]@
        }
}

/// No two vehicles share a cell.
pub open spec fn collision_free(vs: Seq<Vehicle>) -> bool {
    forall|i: int, j: int|
        0 <= i < vs.len() && 0 <= j < vs.len() && i != j ==> (#[trigger] vs[i]).position
            != (#[trigger] vs[j]).position
}

/// Every vehicle can drive its speed without reaching the cell of any
/// other vehicle in its lane.
pub open spec fn headway_kept(vs: Seq<Vehicle>, len: int) -> bool {
    forall|i: int, j: int|
        0 <= i < vs.len() && 0 <= j < vs.len() && i != j && shares_lane(
            #[trigger] vs[j],
            (#[trigger] vs[i]).position,
        ) ==> vs[i].velocity@ <= gap(len, vs[j].position.x as int, vs[i].position.x as int)
}

/// Toroidal gap from `pos` to the nearest vehicle ahead of it in its lane,
/// or `NO_VEHICLE_AHEAD` if the lane holds nobody else.
pub open spec fn next_gap(vs: Seq<Vehicle>, len: int, pos: Position) -> int
    decreases vs.len(),
{
    if vs.len() == 0 {
        NO_VEHICLE_AHEAD as int
    } else {
        let rest = next_gap(vs.drop_last(), len, pos);
        let d = gap(len, vs.last().position.x as int, pos.x as int);
        if shares_lane(vs.last(), pos) && d < rest {
            d
        } else {
            rest
        }
    }
}

/// Index of the nearest vehicle behind `pos` in its lane (the first such
/// one, should two be equally near), or -1 if the lane holds nobody else.
pub open spec fn behind_index(vs: Seq<Vehicle>, len: int, pos: Position) -> int
    decreases vs.len(),
{
    if vs.len() == 0 {
        -1
    } else {
        let rest = behind_index(vs.drop_last(), len, pos);
        let k = vs.len() - 1;
        if shares_lane(vs[k], pos) && (rest == -1 || gap(len, pos.x as int, vs[k].position.x as int)
            < gap(len, pos.x as int, vs[rest].position.x as int)) {
            k
        } else {
            rest
        }
    }
}

/// The highest speed allowed on `pos`: the lane's limit, capped by the gap
/// to the vehicle ahead.
pub open spec fn max_speed_at(
    vs: Seq<Vehicle>,
    len: int,
    limits: Seq<Velocity>,
    pos: Position,
) -> int {
    let g = next_gap(vs, len, pos);
    let limit = limits[pos.y as int]@ as int;
    if g < limit {
        g
    } else {
        limit
    }
}

/// Some vehicle stands on `pos`.
pub open spec fn occupied(vs: Seq<Vehicle>, pos: Position) -> bool {
    exists|j: int| 0 <= j < vs.len() && (#[trigger] vs[j]).position == pos
}

pub proof fn lemma_next_gap_bounds(vs: Seq<Vehicle>, len: int, pos: Position)
    requires
        0 < len,
    ensures
        0 <= next_gap(vs, len, pos) <= NO_VEHICLE_AHEAD,
        forall|k: int|
            0 <= k < vs.len() && shares_lane(#[trigger] vs[k], pos) ==> next_gap(vs, len, pos)
                <= gap(len, vs[k].position.x as int, pos.x as int),
    decreases vs.len(),
{
    if vs.len() > 0 {
        lemma_next_gap_bounds(vs.drop_last(), len, pos);
        assert forall|k: int|
            0 <= k < vs.len() && shares_lane(#[trigger] vs[k], pos) implies next_gap(vs, len, pos)
                <= gap(len, vs[k].position.x as int, pos.x as int) by {
            if k < vs.len() - 1 {
                assert(vs.drop_last()[k] == vs[k]);
            }
        }
    }
}

/// The gap ahead is either the sentinel or the gap to some vehicle.
pub proof fn lemma_next_gap_attained(vs: Seq<Vehicle>, len: int, pos: Position)
    ensures
        next_gap(vs, len, pos) == NO_VEHICLE_AHEAD || exists|k: int|
            0 <= k < vs.len() && shares_lane(#[trigger] vs[k], pos) && next_gap(vs, len, pos)
                == gap(len, vs[k].position.x as int, pos.x as int),
    decreases vs.len(),
{
    if vs.len() > 0 {
        lemma_next_gap_attained(vs.drop_last(), len, pos);
        if next_gap(vs, len, pos) != NO_VEHICLE_AHEAD && next_gap(vs, len, pos) == next_gap(
            vs.drop_last(),
            len,
            pos,
        ) {
            let k = choose|k: int|
                0 <= k < vs.drop_last().len() && shares_lane(#[trigger] vs.drop_last()[k], pos)
                    && next_gap(vs.drop_last(), len, pos) == gap(
                    len,
                    vs.drop_last()[k].position.x as int,
                    pos.x as int,
                );
            assert(vs[k] == vs.drop_last()[k]);
        }
    }
}

/// `behind_index` names the nearest vehicle behind, if there is one.
pub proof fn lemma_behind_index(vs: Seq<Vehicle>, len: int, pos: Position)
    ensures
        -1 <= behind_index(vs, len, pos) < vs.len(),
        behind_index(vs, len, pos) == -1 ==> forall|k: int|
            0 <= k < vs.len() ==> !shares_lane(#[trigger] vs[k], pos),
        behind_index(vs, len, pos) != -1 ==> {
            let b = behind_index(vs, len, pos);
            &&& shares_lane(vs[b], pos)
            &&& forall|k: int|
                0 <= k < vs.len() && shares_lane(#[trigger] vs[k], pos) ==> gap(
                    len,
                    pos.x as int,
                    vs[b].position.x as int,
                ) <= gap(len, pos.x as int, vs[k].position.x as int)
        },
    decreases vs.len(),
{
    if vs.len() > 0 {
        let init = vs.drop_last();
        lemma_behind_index(init, len, pos);
        assert forall|k: int| 0 <= k < init.len() implies init[k] == vs[k] by {}
    }
}

/// The cap on speed at a cell is a cap on the gap to each vehicle ahead.
pub proof fn lemma_max_speed_below_gaps(
    vs: Seq<Vehicle>,
    len: int,
    limits: Seq<Velocity>,
    pos: Position,
)
    requires
        0 < len,
    ensures
        0 <= max_speed_at(vs, len, limits, pos) <= limits[pos.y as int]@,
        forall|k: int|
            0 <= k < vs.len() && shares_lane(#[trigger] vs[k], pos) ==> max_speed_at(
                vs,
                len,
                limits,
                pos,
            ) <= gap(len, vs[k].position.x as int, pos.x as int),
{
    lemma_next_gap_bounds(vs, len, pos);
}

/// Under kept headways, a vehicle's speed is within the cap at its cell.
pub proof fn lemma_headway_within_next_gap(vs: Seq<Vehicle>, len: int, i: int)
    requires
        headway_kept(vs, len),
        0 <= i < vs.len(),
    ensures
        vs[i].velocity@ <= next_gap(vs, len, vs[i].position),
{
    lemma_next_gap_attained(vs, len, vs[i].position);
    if next_gap(vs, len, vs[i].position) != NO_VEHICLE_AHEAD {
        let k = choose|k: int|
            0 <= k < vs.len() && shares_lane(#[trigger] vs[k], vs[i].position) && next_gap(
                vs,
                len,
                vs[i].position,
            ) == gap(len, vs[k].position.x as int, vs[i].position.x as int);
        assert(k != i);
    }
}

/// Index of the cell `(x, y)` on a road of `lanes` lanes, counted across
/// the lanes first.
pub open spec fn cell_index(x: int, y: int, lanes: int) -> int {
    x * lanes + y
}

/// Different cells have different indices.
pub proof fn lemma_cell_index_injective(x: int, y: int, x2: int, y2: int, lanes: int)
    requires
        0 <= x,
        0 <= x2,
        0 <= y < lanes,
        0 <= y2 < lanes,
        cell_index(x, y, lanes) == cell_index(x2, y2, lanes),
    ensures
        x == x2,
        y == y2,
{
    if x < x2 {
        assert(x2 * lanes >= (x + 1) * lanes) by (nonlinear_arith)
            requires
                x2 >= x + 1,
                lanes >= 0,
        ;
        assert((x + 1) * lanes == x * lanes + lanes) by (nonlinear_arith);
    } else if x2 < x {
        assert(x * lanes >= (x2 + 1) * lanes) by (nonlinear_arith)
            requires
                x >= x2 + 1,
                lanes >= 0,
        ;
        assert((x2 + 1) * lanes == x2 * lanes + lanes) by (nonlinear_arith);
    }
}

/// The index of a cell of a road of `len` cells per lane is below `len * lanes`.
pub proof fn lemma_cell_index_bound(x: int, y: int, len: int, lanes: int)
    requires
        0 <= x < len,
        0 <= y < lanes,
    ensures
        0 <= cell_index(x, y, lanes) < len * lanes,
{
    assert(x * lanes <= (len - 1) * lanes) by (nonlinear_arith)
        requires
            x <= len - 1,
            lanes >= 0,
    ;
    assert((len - 1) * lanes == len * lanes - lanes) by (nonlinear_arith);
    assert(x * lanes >= 0) by (nonlinear_arith)
        requires
            x >= 0,
            lanes >= 0,
    ;
}

/// With at most one vehicle per cell, a road holds at most as many
/// vehicles as it has cells.
pub proof fn lemma_vehicle_count_bound(vs: Seq<Vehicle>, len: int, limits: Seq<Velocity>)
    requires
        0 < len,
        on_road(vs, len, limits),
        collision_free(vs),
    ensures
        vs.len() <= len * limits.len(),
{
    let lanes = limits.len() as int;
    let idx = vs.map_values(
        |v: Vehicle| cell_index(v.position.x as int, v.position.y as int, lanes),
    );
    assert forall|i: int, j: int|
        0 <= i < idx.len() && 0 <= j < idx.len() && i != j implies idx[i] != idx[j] by {
        if idx[i] == idx[j] {
            lemma_cell_index_injective(
                vs[i].position.x as int,
                vs[i].position.y as int,
                vs[j].position.x as int,
                vs[j].position.y as int,
                lanes,
            );
            assert(vs[i].position == vs[j].position);
        }
    }
    assert(idx.no_duplicates());
    idx.unique_seq_to_set();
    lemma_int_range(0, len * lanes);
    assert forall|c: int| idx.to_set().contains(c) implies set_int_range(0, len * lanes).contains(
        c,
    ) by {
        let i = choose|i: int| 0 <= i < idx.len() && idx[i] == c;
        lemma_cell_index_bound(vs[i].position.x as int, vs[i].position.y as int, len, lanes);
    }
    lemma_len_subset(idx.to_set(), set_int_range(0, len * lanes));
}

/// Sum of the speeds of `vs`.
pub open spec fn total_speed(vs: Seq<Vehicle>) -> int
    decreases vs.len(),
{
    if vs.len() == 0 {
        0
    } else {
        total_speed(vs.drop_last()) + vs.last().velocity@
    }
}

/// The vehicles of `vs` that drive in `lane`, in their order.
pub open spec fn in_lane(vs: Seq<Vehicle>, lane: int) -> Seq<Vehicle>
    decreases vs.len(),
{
    if vs.len() == 0 {
        Seq::empty()
    } else {
        let rest = in_lane(vs.drop_last(), lane);
        if vs.last().position.y == lane {
            rest.push(vs.last())
        } else {
            rest
        }
    }
}

/// `total / count`, or zero for no vehicles at all.
pub open spec fn mean_of(total: int, count: int) -> Quotient {
    if count == 0 {
        Quotient { numerator: 0, denominator: 1 }
    } else {
        Quotient { numerator: total as u64, denominator: count as u64 }
    }
}

pub proof fn lemma_total_speed_bound(vs: Seq<Vehicle>)
    ensures
        0 <= total_speed(vs) <= 255 * vs.len(),
    decreases vs.len(),
{
    if vs.len() > 0 {
        lemma_total_speed_bound(vs.drop_last());
    }
}

impl Road {
    /// The other fields than `vehicles` agree.
    pub open spec fn same_frame(&self, other: Road) -> bool {
        &&& self.len == other.len
        &&& self.deceleration_probability == other.deceleration_probability
        &&& self.speed_per_lane@ == other.speed_per_lane@
    }

    /// Number of lanes: one per speed limit.
    pub open spec fn lanes(&self) -> int {
        self.speed_per_lane@.len() as int
    }

    /// The road has at least one cell and one lane, each vehicle stands on
    /// a cell of its own, within its lane's speed limit.
    pub open spec fn wf(&self) -> bool {
        &&& self.len > 0
        &&& 0 < self.speed_per_lane@.len() <= 256
        &&& on_road(self.vehicles@, self.len as int, self.speed_per_lane@)
        &&& collision_free(self.vehicles@)
    }

    pub fn new(
        len: u8,
        deceleration_probability: Fraction,
        vehicles: Vec<Vehicle>,
        speed_per_lane: Vec<Velocity>,
    ) -> (r: Self)
        ensures
            r.len == len,
            r.deceleration_probability == deceleration_probability,
            r.vehicles@ == vehicles@,
            r.speed_per_lane@ == speed_per_lane@,
    {
        Self { len, deceleration_probability, vehicles, speed_per_lane }
    }

    /// Free cells between a vehicle at `x2` and the vehicle ahead of it at
    /// `x1`, counted forward and across the seam of the road.
    pub fn dist_between_vehicles(&self, x1: u8, x2: u8) -> (r: u8)
        requires
            x1 < self.len,
            x2 < self.len,
        ensures
            r == gap(self.len as int, x1 as int, x2 as int),
            r < self.len,
    {
        proof {
            lemma_gap_unfold(self.len as int, x1 as int, x2 as int);
        }
        ((x1 as u16 + self.len as u16 - 1 - x2 as u16) % (self.len as u16)) as u8
    }

    /// Gap to the nearest vehicle ahead of `position` in its lane, the
    /// vehicle standing on `position` itself left out; `NO_VEHICLE_AHEAD`
    /// if there is none.
    pub fn distance_to_next_vehicle(&self, position: Position) -> (r: u8)
        requires
            self.wf(),
            position.x < self.len,
        ensures
            r == next_gap(self.vehicles@, self.len as int, position),
    {
        let mut best: u8 = NO_VEHICLE_AHEAD;
        let mut i: usize = 0;
        while i < self.vehicles.len()
            invariant
                self.wf(),
                position.x < self.len,
                i <= self.vehicles@.len(),
                best == next_gap(self.vehicles@.subrange(0, i as int), self.len as int, position),
            decreases self.vehicles@.len() - i,
        {
            let other = &self.vehicles[i];
            proof {
                let pre = self.vehicles@.subrange(0, i as int + 1);
                assert(pre.drop_last() =~= self.vehicles@.subrange(0, i as int));
                assert(pre.last() == self.vehicles@[i as int]);
                assert(other.position.x < self.len);
            }
            if other.position.y == position.y && other.position.x != position.x {
                let d = self.dist_between_vehicles(other.position.x, position.x);
                if d < best {
                    best = d;
                }
            }
            i += 1;
        }
        proof {
            assert(self.vehicles@.subrange(0, i as int) =~= self.vehicles@);
        }
        best
    }

    /// The nearest vehicle behind `position` in its lane, the vehicle on
    /// `position` itself left out.
    pub fn find_previous_vehicle(&self, position: Position) -> (r: Option<&Vehicle>)
        requires
            self.wf(),
            position.x < self.len,
        ensures
            behind_index(self.vehicles@, self.len as int, position) == -1 ==> r is None,
            behind_index(self.vehicles@, self.len as int, position) != -1 ==> r == Some(
                &self.vehicles@[behind_index(self.vehicles@, self.len as int, position)],
            ),
    {
        let mut best: Option<usize> = None;
        let mut best_gap: u8 = 0;
        let mut i: usize = 0;
        while i < self.vehicles.len()
            invariant
                self.wf(),
                position.x < self.len,
                i <= self.vehicles@.len(),
                ({
                    let seen = behind_index(
                        self.vehicles@.subrange(0, i as int),
                        self.len as int,
                        position,
                    );
                    match best {
                        None => seen == -1,
                        Some(b) => {
                            &&& seen == b
                            &&& b < i
                            &&& best_gap == gap(
                                self.len as int,
                                position.x as int,
                                self.vehicles@[b as int].position.x as int,
                            )
                        },
                    }
                }),
            decreases self.vehicles@.len() - i,
        {
            let other = &self.vehicles[i];
            proof {
                let pre = self.vehicles@.subrange(0, i as int + 1);
                assert(pre.drop_last() =~= self.vehicles@.subrange(0, i as int));
                assert(pre[i as int] == self.vehicles@[i as int]);
                if let Some(b) = best {
                    assert(pre[b as int] == self.vehicles@[b as int]);
                }
                assert(other.position.x < self.len);
            }
            if other.position.y == position.y && other.position.x != position.x {
                let d = self.dist_between_vehicles(position.x, other.position.x);
                match best {
                    None => {
                        best = Some(i);
                        best_gap = d;
                    },
                    Some(_) => {
                        if d < best_gap {
                            best = Some(i);
                            best_gap = d;
                        }
                    },
                }
            }
            i += 1;
        }
        proof {
            assert(self.vehicles@.subrange(0, i as int) =~= self.vehicles@);
        }
        match best {
            None => None,
            Some(b) => Some(&self.vehicles[b]),
        }
    }

    /// Speed limit of `lane`, if the road has that lane.
    pub fn get_max_velocity_in_lane(&self, lane: u8) -> (r: Option<Velocity>)
        ensures
            lane < self.lanes() ==> r == Some(self.speed_per_lane@[lane as int]),
            lane >= self.lanes() ==> r is None,
    {
        if (lane as usize) < self.speed_per_lane.len() {
            Some(self.speed_per_lane[lane as usize])
        } else {
            None
        }
    }

    /// Highest speed a vehicle may take on `pos`: the lane's limit, capped
    /// by the gap to the vehicle ahead.
    pub fn get_max_velocity_on_position(&self, pos: Position) -> (r: Velocity)
        requires
            self.wf(),
            pos.x < self.len,
            pos.y < self.lanes(),
        ensures
            r@ == max_speed_at(self.vehicles@, self.len as int, self.speed_per_lane@, pos),
    {
        let dist_to_next_vehicle = self.distance_to_next_vehicle(pos);
        let limit = self.speed_per_lane[pos.y as usize].into_inner();
        if dist_to_next_vehicle < limit {
            Velocity::new(dist_to_next_vehicle)
        } else {
            Velocity::new(limit)
        }
    }

    /// Whether some vehicle stands on `pos`.
    pub fn is_occupied(&self, pos: Position) -> (r: bool)
        ensures
            r == occupied(self.vehicles@, pos),
    {
        let mut i: usize = 0;
        while i < self.vehicles.len()
            invariant
                i <= self.vehicles@.len(),
                forall|j: int| 0 <= j < i ==> (#[trigger] self.vehicles@[j]).position != pos,
            decreases self.vehicles@.len() - i,
        {
            if self.vehicles[i].position == pos {
                return true;
            }
            i += 1;
        }
        false
    }

    /// Number of cells of the road, over all lanes; with at most one
    /// vehicle per cell, a bound on the number of vehicles.
    proof fn lemma_cells(&self)
        requires
            self.wf(),
        ensures
            self.vehicles@.len() <= self.len * self.lanes() <= 255 * 256,
    {
        lemma_vehicle_count_bound(self.vehicles@, self.len as int, self.speed_per_lane@);
        assert(self.len * self.lanes() <= 255 * 256) by (nonlinear_arith)
            requires
                self.len <= 255,
                self.lanes() <= 256,
        ;
    }

    /// Mean speed of all vehicles; zero on a road without vehicles.
    pub fn get_average_speed(&self) -> (r: Quotient)
        requires
            self.wf(),
        ensures
            r == mean_of(total_speed(self.vehicles@), self.vehicles@.len() as int),
    {
        proof {
            self.lemma_cells();
        }
        let mut total: u64 = 0;
        let mut i: usize = 0;
        while i < self.vehicles.len()
            invariant
                i <= self.vehicles@.len() <= 255 * 256,
                total == total_speed(self.vehicles@.subrange(0, i as int)),
            decreases self.vehicles@.len() - i,
        {
            proof {
                let pre = self.vehicles@.subrange(0, i as int + 1);
                assert(pre.drop_last() =~= self.vehicles@.subrange(0, i as int));
                lemma_total_speed_bound(self.vehicles@.subrange(0, i as int));
            }
            total = total + self.vehicles[i].velocity.into_inner() as u64;
            i += 1;
        }
        proof {
            assert(self.vehicles@.subrange(0, i as int) =~= self.vehicles@);
        }
        if self.vehicles.len() == 0 {
            Quotient { numerator: 0, denominator: 1 }
        } else {
            Quotient { numerator: total, denominator: self.vehicles.len() as u64 }
        }
    }

    /// Share of the cells that hold a vehicle: vehicles / (length x lanes).
    pub fn get_density(&self) -> (r: Quotient)
        requires
            self.wf(),
        ensures
            r.numerator == self.vehicles@.len(),
            r.denominator == self.len * self.lanes(),
    {
        proof {
            self.lemma_cells();
        }
        Quotient {
            numerator: self.vehicles.len() as u64,
            denominator: (self.len as u64) * (self.speed_per_lane.len() as u64),
        }
    }

    /// Flow: density times mean speed, that is the sum of the speeds over
    /// the number of cells.
    pub fn get_flow(&self) -> (r: Quotient)
        requires
            self.wf(),
        ensures
            r.numerator == total_speed(self.vehicles@),
            r.denominator == self.len * self.lanes(),
            ({
                let a = mean_of(total_speed(self.vehicles@), self.vehicles@.len() as int);
                r.numerator * (a.denominator * self.lanes() * self.len) == (a.numerator
                    * self.vehicles@.len()) * r.denominator
            }),
    {
        let average = self.get_average_speed();
        let density = self.get_density();
        proof {
            self.lemma_cells();
            lemma_total_speed_bound(self.vehicles@);
            let n = self.vehicles@.len() as int;
            let t = total_speed(self.vehicles@);
            let lanes = self.lanes();
            let len = self.len as int;
            if n == 0 {
                assert(t == 0);
            } else {
                assert(average.denominator == n);
            }
            assert(average.numerator * (average.denominator * lanes * len) == (average.numerator
                * n) * (len * lanes)) by (nonlinear_arith)
                requires
                    n == 0 ==> average.numerator == 0,
                    n != 0 ==> average.denominator == n,
            ;
        }
        Quotient { numerator: average.numerator, denominator: density.denominator }
    }

    /// Total speed and number of the vehicles in `lane`.
    fn lane_totals(&self, lane: usize) -> (r: (u64, u64))
        requires
            self.wf(),
        ensures
            r.0 == total_speed(in_lane(self.vehicles@, lane as int)),
            r.1 == in_lane(self.vehicles@, lane as int).len(),
    {
        proof {
            self.lemma_cells();
        }
        let mut total: u64 = 0;
        let mut count: u64 = 0;
        let mut i: usize = 0;
        while i < self.vehicles.len()
            invariant
                i <= self.vehicles@.len() <= 255 * 256,
                total == total_speed(in_lane(self.vehicles@.subrange(0, i as int), lane as int)),
                count == in_lane(self.vehicles@.subrange(0, i as int), lane as int).len(),
                count <= i,
            decreases self.vehicles@.len() - i,
        {
            let ghost before = in_lane(self.vehicles@.subrange(0, i as int), lane as int);
            proof {
                let pre = self.vehicles@.subrange(0, i as int + 1);
                assert(pre.drop_last() =~= self.vehicles@.subrange(0, i as int));
                lemma_total_speed_bound(before);
                assert(before.push(self.vehicles@[i as int]).drop_last() =~= before);
            }
            if self.vehicles[i].position.y as usize == lane {
                total = total + self.vehicles[i].velocity.into_inner() as u64;
                count = count + 1;
            }
            i += 1;
        }
        proof {
            assert(self.vehicles@.subrange(0, i as int) =~= self.vehicles@);
        }
        (total, count)
    }

    /// Mean speed in each lane, lane by lane; zero for a lane without
    /// vehicles.
    pub fn get_average_speed_per_lane(&self) -> (r: Vec<Quotient>)
        requires
            self.wf(),
        ensures
            r@.len() == self.lanes(),
            forall|lane: int|
                0 <= lane < self.lanes() ==> #[trigger] r@[lane] == mean_of(
                    total_speed(in_lane(self.vehicles@, lane)),
                    in_lane(self.vehicles@, lane).len() as int,
                ),
    {
        let mut r: Vec<Quotient> = Vec::new();
        let mut lane: usize = 0;
        while lane < self.speed_per_lane.len()
            invariant
                self.wf(),
                lane <= self.lanes(),
                r@.len() == lane,
                forall|l: int|
                    0 <= l < lane ==> #[trigger] r@[l] == mean_of(
                        total_speed(in_lane(self.vehicles@, l)),
                        in_lane(self.vehicles@, l).len() as int,
                    ),
            decreases self.lanes() - lane,
        {
            let (total, count) = self.lane_totals(lane);
            if count == 0 {
                r.push(Quotient { numerator: 0, denominator: 1 });
            } else {
                r.push(Quotient { numerator: total, denominator: count });
            }
            lane += 1;
        }
        r
    }

    /// The vehicles driving in `lane`, in the order of the road's list.
    pub fn get_vehicles_in_lane(&self, lane: u8) -> (r: Vec<&Vehicle>)
        ensures
            r@.len() == in_lane(self.vehicles@, lane as int).len(),
            forall|i: int| 0 <= i < r@.len() ==> *r@[i] == in_lane(self.vehicles@, lane as int)[i],
    {
        let mut r: Vec<&Vehicle> = Vec::new();
        let mut i: usize = 0;
        while i < self.vehicles.len()
            invariant
                i <= self.vehicles@.len(),
                r@.len() == in_lane(self.vehicles@.subrange(0, i as int), lane as int).len(),
                forall|k: int|
                    0 <= k < r@.len() ==> *r@[k] == in_lane(
                        self.vehicles@.subrange(0, i as int),
                        lane as int,
                    )[k],
            decreases self.vehicles@.len() - i,
        {
            proof {
                let pre = self.vehicles@.subrange(0, i as int + 1);
                assert(pre.drop_last() =~= self.vehicles@.subrange(0, i as int));
            }
            if self.vehicles[i].position.y == lane {
                r.push(&self.vehicles[i]);
            }
            i += 1;
        }
        proof {
            assert(self.vehicles@.subrange(0, i as int) =~= self.vehicles@);
        }
        r
    }

    /// The vehicles, to be changed in place; the caller answers for the
    /// road staying well-formed.
    pub fn get_vehicles_mut(&mut self) -> (r: &mut [Vehicle])
        ensures
            r@ == old(self).vehicles@,
            final(self).vehicles@ == final(r)@,
            final(self).len == old(self).len,
            final(self).deceleration_probability == old(self).deceleration_probability,
            final(self).speed_per_lane@ == old(self).speed_per_lane@,
    {
        self.vehicles.as_mut_slice()
    }

    /// Sets the speed limit of `lane`; a lane the road lacks is left alone.
    pub fn set_max_velocity_in_lane(&mut self, lane: u8, velocity: Velocity)
        ensures
            final(self).len == old(self).len,
            final(self).deceleration_probability == old(self).deceleration_probability,
            final(self).vehicles@ == old(self).vehicles@,
            final(self).speed_per_lane@ == if lane < old(self).lanes() {
                old(self).speed_per_lane@.update(lane as int, velocity)
            } else {
                old(self).speed_per_lane@
            },
    {
        if (lane as usize) < self.speed_per_lane.len() {
            self.speed_per_lane.set(lane as usize, velocity);
        }
    }

    /// Advances the road by one tick on fresh random draws.
    pub fn update_vehicles(&mut self)
        requires
            old(self).wf(),
        ensures
            final(self).same_frame(*old(self)),
            final(self).wf(),
            final(self).vehicles@.len() == old(self).vehicles@.len(),
            is_tick_of(*old(self), final(self).vehicles@),
    {
        let mut taken = Road::new(self.len, self.deceleration_probability, Vec::new(), Vec::new());
        std::mem::swap(self, &mut taken);
        *self = crate::step(taken);
    }
}

/// Lanes of a road made by `create_road`.
pub const LANES: usize = 3;

/// Speed limit of every lane when no limits are given.
pub const DEFAULT_SPEED: u8 = 5;

/// Vehicles on `cells` cells at `density`: the nearest whole number, a
/// half rounded up.
pub open spec fn vehicle_count(cells: int, density: Fraction) -> int {
    (cells * density.per_million + PARTS / 2) / (PARTS as int)
}

/// Speed limits of a road made by `create_road`: the first three given, or
/// `DEFAULT_SPEED` in each lane if none are.
pub open spec fn lane_limits(speeds: Seq<u8>) -> Seq<Velocity> {
    if speeds.len() == 0 {
        seq![Velocity(DEFAULT_SPEED), Velocity(DEFAULT_SPEED), Velocity(DEFAULT_SPEED)]
    } else {
        seq![Velocity(speeds[0]), Velocity(speeds[1]), Velocity(speeds[2])]
    }
}

/// `c` is one of the entries of `s`.
pub open spec fn listed(s: Seq<usize>, c: int) -> bool {
    exists|k: int| 0 <= k < s.len() && s[k] as int == c
}

/// The cell `create_road` gives vehicle `i` when it places vehicles in
/// order: round the lanes first, then along the road.
pub open spec fn ordered_cell(i: int) -> Position {
    Position { x: (i / LANES as int) as u8, y: (i % LANES as int) as u8 }
}

/// A road of `length` cells and three lanes, filled to `density`.
///
/// Vehicles go either in order (`ordered_cell`) or each on a cell drawn
/// uniformly from the cells still free. They stand still, or start at a
/// speed drawn uniformly below their lane's limit. Both lane-change
/// chances of every vehicle are `lane_change_probability`.
pub fn create_road(
    length: usize,
    density: Fraction,
    speed_per_lane: Vec<u8>,
    deceleration_probability: Fraction,
    lane_change_probability: Fraction,
    random_car_start_pos: bool,
    random_car_start_speed: bool,
) -> (r: Road)
    requires
        0 < length <= 255,
        density.wf(),
        speed_per_lane@.len() == 0 || speed_per_lane@.len() >= LANES,
    ensures
        r.wf(),
        r.len == length,
        r.deceleration_probability == deceleration_probability,
        r.speed_per_lane@ == lane_limits(speed_per_lane@),
        r.vehicles@.len() == vehicle_count(length * LANES, density),
        forall|i: int|
            0 <= i < r.vehicles@.len() ==> {
                &&& (#[trigger] r.vehicles@[i]).original_lane == r.vehicles@[i].position.y
                &&& r.vehicles@[i].move_left_chance == lane_change_probability
                &&& r.vehicles@[i].move_right_chance == lane_change_probability
                &&& !random_car_start_pos ==> r.vehicles@[i].position == ordered_cell(i)
                &&& !random_car_start_speed ==> r.vehicles@[i].velocity@ == 0
                &&& random_car_start_speed ==> r.vehicles@[i].velocity@ == 0
                    || r.vehicles@[i].velocity@
                    < r.speed_per_lane@[r.vehicles@[i].position.y as int]@
            },
{
    let speeds: Vec<Velocity> = if speed_per_lane.len() == 0 {
        vec![Velocity(DEFAULT_SPEED), Velocity(DEFAULT_SPEED), Velocity(DEFAULT_SPEED)]
    } else {
        vec![Velocity(speed_per_lane[0]), Velocity(speed_per_lane[1]), Velocity(speed_per_lane[2])]
    };
    let ghost limits = lane_limits(speed_per_lane@);
    assert(speeds@ =~= limits);
    let total: usize = length * LANES;
    assert(limits.len() == LANES);
    assert((total as u64) * (density.per_million as u64) <= 765 * 1_000_000) by (nonlinear_arith)
        requires
            total <= 765,
            density.per_million <= 1_000_000,
    ;
    let scaled: u64 = (total as u64) * (density.per_million as u64) + (PARTS / 2) as u64;
    let amount_of_cars: usize = (scaled / (PARTS as u64)) as usize;
    assert(amount_of_cars <= total) by (nonlinear_arith)
        requires
            amount_of_cars == scaled / 1_000_000,
            scaled == total * density.per_million + 500_000,
            density.per_million <= PARTS,
            PARTS == 1_000_000,
            total >= 0,
    ;
    let mut free: Vec<usize> = Vec::new();
    let mut c: usize = 0;
    while c < total
        invariant
            c <= total,
            free@.len() == c,
            forall|k: int| 0 <= k < c ==> #[trigger] free@[k] == k,
        decreases total - c,
    {
        free.push(c);
        c += 1;
    }
    let mut vehicles: Vec<Vehicle> = Vec::new();
    let mut i: usize = 0;
    while i < amount_of_cars
        invariant
            0 < length <= 255,
            total == length * LANES,
            amount_of_cars <= total,
            i <= amount_of_cars,
            speeds@ == limits,
            limits.len() == LANES,
            vehicles@.len() == i,
            random_car_start_pos ==> free@.len() + i == total,
            forall|k: int| 0 <= k < free@.len() ==> #[trigger] free@[k] < total,
            forall|a: int, b: int|
                0 <= a < free@.len() && 0 <= b < free@.len() && a != b ==> #[trigger] free@[a]
                    != #[trigger] free@[b],
            on_road(vehicles@, length as int, limits),
            collision_free(vehicles@),
            forall|j: int|
                0 <= j < i ==> {
                    &&& (#[trigger] vehicles@[j]).original_lane == vehicles@[j].position.y
                    &&& vehicles@[j].move_left_chance == lane_change_probability
                    &&& vehicles@[j].move_right_chance == lane_change_probability
                    &&& random_car_start_pos ==> !listed(
                        free@,
                        cell_index(
                            vehicles@[j].position.x as int,
                            vehicles@[j].position.y as int,
                            LANES as int,
                        ),
                    )
                    &&& !random_car_start_pos ==> vehicles@[j].position == ordered_cell(j)
                    &&& !random_car_start_speed ==> vehicles@[j].velocity@ == 0
                    &&& random_car_start_speed ==> vehicles@[j].velocity@ == 0
                        || vehicles@[j].velocity@ < limits[vehicles@[j].position.y as int]@
                },
        decreases amount_of_cars - i,
    {
        let ghost old_free = free@;
        let cell: usize = if random_car_start_pos {
            let k = random_below(free.len() as u32) as usize;
            free.remove(k)
        } else {
            i
        };
        assert(cell < total);
        let lane = cell % LANES;
        let x = cell / LANES;
        let limit = speeds[lane].into_inner();
        let speed: u8 = if random_car_start_speed && limit > 0 {
            random_below(limit as u32) as u8
        } else {
            0
        };
        assert(x < length && lane < LANES);
        assert(speed <= limit);
        let v = Vehicle::new(
            Position::new(x as u8, lane as u8),
            Some(Velocity::new(speed)),
            lane_change_probability,
            lane_change_probability,
        );
        proof {
            assert(cell_index(x as int, lane as int, LANES as int) == cell);
            assert forall|j: int| 0 <= j < i implies (#[trigger] vehicles@[j]).position
                != v.position by {
                let vj = vehicles@[j];
                if vj.position == v.position {
                    if random_car_start_pos {
                        assert(listed(old_free, cell as int));
                    } else {
                        assert(vj.position == ordered_cell(j));
                        lemma_cell_index_injective(
                            j / 3,
                            j % 3,
                            i as int / 3,
                            i as int % 3,
                            3,
                        );
                    }
                }
            }
            if random_car_start_pos {
                assert forall|j: int| 0 <= j < i implies !listed(
                    free@,
                    cell_index(
                        #[trigger] vehicles@[j].position.x as int,
                        vehicles@[j].position.y as int,
                        LANES as int,
                    ),
                ) by {
                    let cj = cell_index(
                        vehicles@[j].position.x as int,
                        vehicles@[j].position.y as int,
                        LANES as int,
                    );
                    if listed(free@, cj) {
                        let m = choose|m: int| 0 <= m < free@.len() && free@[m] as int == cj;
                        assert(listed(old_free, cj));
                    }
                }
            }
        }
        let ghost old_vs = vehicles@;
        vehicles.push(v);
        proof {
            assert(vehicles@[i as int] == v);
            assert forall|a: int, b: int|
                0 <= a < vehicles@.len() && 0 <= b < vehicles@.len() && a != b implies (
                #[trigger] vehicles@[a]).position != (#[trigger] vehicles@[b]).position by {
                if a < i && b < i {
                    assert(vehicles@[a] == old_vs[a]);
                }
            }
        }
        i += 1;
    }
    Road::new(length as u8, deceleration_probability, vehicles, speeds)
}

} // verus!
