//! What a single vehicle decides in a tick, each decision taken on a
//! snapshot of the road.
use crate::road::lemma_behind_index;
use crate::rules::{
    accelerated_speed, braked_speed, lane_changed, lane_open, moved_vehicle, with_speed,
};
use crate::typedef::{Fraction, Position, Road, Vehicle, Velocity};
use vstd::prelude::*;

verus! {

impl Vehicle {
    /// A vehicle on `position`, standing still unless `vel` gives a speed;
    /// its original lane is the lane it starts in.
    pub fn new(
        position: Position,
        vel: Option<Velocity>,
        move_left_chance: Fraction,
        move_right_chance: Fraction,
    ) -> (r: Self)
        ensures
            r.original_lane == position.y,
            r.position == position,
            r.velocity == (match vel {
                Some(v) => v,
                None => Velocity(0),
            }),
            r.move_left_chance == move_left_chance,
            r.move_right_chance == move_right_chance,
    {
        let velocity = match vel {
            Some(v) => v,
            None => Velocity::new(0),
        };
        Self { original_lane: position.y, position, velocity, move_left_chance, move_right_chance }
    }

    /// The cell beside this one, one lane up.
    fn go_left(&self) -> (r: Position)
        requires
            self.position.y < 255,
        ensures
            r == (Position { x: self.position.x, y: (self.position.y + 1) as u8 }),
    {
        Position::new(self.position.x, self.position.y + 1)
    }

    /// The cell beside this one, one lane down.
    fn go_right(&self) -> (r: Position)
        requires
            self.position.y > 0,
        ensures
            r == (Position { x: self.position.x, y: (self.position.y - 1) as u8 }),
    {
        Position::new(self.position.x, self.position.y - 1)
    }

    /// Whether the road has a lane above this vehicle's.
    fn can_go_left(&self, road: &Road) -> (r: bool)
        ensures
            r == (self.position.y + 1 < road.lanes()),
    {
        (self.position.y as usize) + 1 < road.speed_per_lane.len()
    }

    /// Whether the road has a lane below this vehicle's.
    fn can_go_right(&self) -> (r: bool)
        ensures
            r == (self.position.y > 0),
    {
        self.position.y > 0
    }

    /// This vehicle's speed raised by one, capped by the highest speed
    /// `road` allows on its cell.
    pub fn accelerate(&self, road: &Road) -> (r: Self)
        requires
            road.wf(),
            self.position.x < road.len,
            self.position.y < road.lanes(),
        ensures
            r == with_speed(
                *self,
                accelerated_speed(road.vehicles@, road.len as int, road.speed_per_lane@, *self),
            ),
    {
        let cap = road.get_max_velocity_on_position(self.position).into_inner();
        let mut r = *self;
        if (self.velocity.into_inner() as u16) + 1 < cap as u16 {
            r.velocity = Velocity::new(self.velocity.into_inner() + 1);
        } else {
            r.velocity = Velocity::new(cap);
        }
        r
    }

    /// This vehicle after a braking draw: one slower if `draw` falls under
    /// the road's probability of braking, never below standing still.
    pub fn decelerate(self, road: &Road, draw: u32) -> (r: Self)
        ensures
            r == with_speed(self, braked_speed(self, road.deceleration_probability, draw)),
    {
        let mut r = self;
        if draw < road.deceleration_probability.per_million && self.velocity.into_inner() > 0 {
            r.velocity = Velocity::new(self.velocity.into_inner() - 1);
        }
        r
    }

    /// This vehicle driven forward by its speed, wrapping round the road.
    pub fn update_position(self, road: &Road) -> (r: Self)
        requires
            road.len > 0,
        ensures
            r == moved_vehicle(self, road.len as int),
    {
        let mut r = self;
        let x = (self.position.x as u16 + self.velocity.into_inner() as u16) % (road.len as u16);
        r.position = Position::new(x as u8, self.position.y);
        r
    }

    /// Acceleration, a braking draw and the move forward, without a lane
    /// change.
    pub fn update_x(self, road: &Road, draw: u32) -> (r: Self)
        requires
            road.wf(),
            self.position.x < road.len,
            self.position.y < road.lanes(),
        ensures
            ({
                let a = with_speed(
                    self,
                    accelerated_speed(road.vehicles@, road.len as int, road.speed_per_lane@, self),
                );
                r == moved_vehicle(
                    with_speed(a, braked_speed(a, road.deceleration_probability, draw)),
                    road.len as int,
                )
            }),
    {
        self.accelerate(road).decelerate(road, draw).update_position(road)
    }

    /// Whether this vehicle may shift into `lane` on `road`: the cell beside
    /// it is free, allows a strictly higher speed than its own, and the
    /// nearest vehicle behind there would not have to brake.
    fn willing_to_change_lane(&self, road: &Road, lane: u8) -> (r: bool)
        requires
            road.wf(),
            self.position.x < road.len,
            self.position.y < road.lanes(),
            lane < road.lanes(),
        ensures
            r == lane_open(
                road.vehicles@,
                road.len as int,
                road.speed_per_lane@,
                *self,
                lane as int,
            ),
    {
        let target = Position::new(self.position.x, lane);
        if road.is_occupied(target) {
            return false;
        }
        let src_lane_speed = road.get_max_velocity_on_position(self.position).into_inner();
        let dst_lane_speed = road.get_max_velocity_on_position(target).into_inner();
        if dst_lane_speed <= src_lane_speed {
            return false;
        }
        proof {
            lemma_behind_index(road.vehicles@, road.len as int, target);
        }
        match road.find_previous_vehicle(target) {
            Some(v) => {
                let distance_to_previous_vehicle = road.dist_between_vehicles(
                    target.x,
                    v.position.x,
                );
                distance_to_previous_vehicle > v.velocity.into_inner()
            },
            None => true,
        }
    }

    fn willing_to_move_left(&self, road: &Road) -> (r: bool)
        requires
            road.wf(),
            self.position.x < road.len,
            self.position.y < road.lanes(),
        ensures
            r == lane_open(
                road.vehicles@,
                road.len as int,
                road.speed_per_lane@,
                *self,
                self.position.y + 1,
            ),
    {
        if self.can_go_left(road) {
            self.willing_to_change_lane(road, self.go_left().y)
        } else {
            false
        }
    }

    fn willing_to_move_right(&self, road: &Road) -> (r: bool)
        requires
            road.wf(),
            self.position.x < road.len,
            self.position.y < road.lanes(),
        ensures
            r == lane_open(
                road.vehicles@,
                road.len as int,
                road.speed_per_lane@,
                *self,
                self.position.y - 1,
            ),
    {
        if self.can_go_right() {
            self.willing_to_change_lane(road, self.go_right().y)
        } else {
            false
        }
    }

    /// This vehicle after its lane-change decision on `road`: of the neighbour
    /// lanes it may shift into, the one allowing the higher speed (the lower
    /// lane on a tie), taken if `draw` falls under its chance of moving that
    /// way.
    pub fn update_lane(self, road: &Road, draw: u32) -> (r: Self)
        requires
            road.wf(),
            self.position.x < road.len,
            self.position.y < road.lanes(),
        ensures
            r == lane_changed(road.vehicles@, road.len as int, road.speed_per_lane@, self, draw),
    {
        let right = self.willing_to_move_right(road);
        let left = self.willing_to_move_left(road);
        let target = if right && left {
            let up = road.get_max_velocity_on_position(self.go_left()).into_inner();
            let down = road.get_max_velocity_on_position(self.go_right()).into_inner();
            if up > down {
                Some(self.go_left())
            } else {
                Some(self.go_right())
            }
        } else if right {
            Some(self.go_right())
        } else if left {
            Some(self.go_left())
        } else {
            None
        };
        match target {
            Some(t) => {
                let chance = if t.y > self.position.y {
                    self.move_left_chance
                } else {
                    self.move_right_chance
                };
                if draw < chance.per_million {
                    let mut r = self;
                    r.position = t;
                    r
                } else {
                    self
                }
            },
            None => self,
        }
    }
}

} // verus!
