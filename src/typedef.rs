//! The values a simulation is made of: cells, speeds, probabilities,
//! vehicles and the road that holds them.
use vstd::prelude::*;

verus! {

/// Millionths in a whole: a `Fraction` of `PARTS` is certainty.
pub const PARTS: u32 = 1_000_000;

/// A proportion between 0 and 1, counted in millionths.
///
/// Probabilities (of braking, of changing lane) and densities are held
/// this way, so that every decision taken on them is exact.
#[derive(Clone, Copy, Debug, PartialEq, Eq, Structural)]
pub struct Fraction {
    pub per_million: u32,
}

impl Fraction {
    /// The fraction lies in `[0, 1]`.
    pub open spec fn wf(&self) -> bool {
        self.per_million <= PARTS
    }

    /// Whether a uniform draw from `[0, PARTS)` counts as the event happening.
    pub open spec fn admits(&self, draw: u32) -> bool {
        draw < self.per_million
    }
}

/// A cell of the road: `x` along the lane, `y` the lane index.
#[derive(Clone, Copy, Debug, PartialEq, Eq, Structural, PartialOrd, Ord, Hash)]
pub struct Position {
    pub x: u8,
    pub y: u8,
}

impl Position {
    pub fn new(x: u8, y: u8) -> (r: Self)
        ensures
            r.x == x,
            r.y == y,
    {
        Self { x, y }
    }

    /// Distance between two positions along the lane, ignoring the lane
    /// and the wrap-around.
    pub fn distance_1d(&self, rhs: &Self) -> (r: u8)
        ensures
            r as int == if self.x >= rhs.x {
                self.x - rhs.x
            } else {
                rhs.x - self.x
            },
    {
        if self.x >= rhs.x {
            self.x - rhs.x
        } else {
            rhs.x - self.x
        }
    }
}

/// A speed, in cells per tick.
#[derive(Clone, Copy, Debug, PartialEq, Eq, Structural, PartialOrd, Ord)]
pub struct Velocity(pub u8);

impl View for Velocity {
    type V = u8;

    open spec fn view(&self) -> u8 {
        self.0
    }
}

impl Velocity {
    pub fn new(v: u8) -> (r: Self)
        ensures
            r@ == v,
    {
        Self(v)
    }

    pub fn into_inner(self) -> (r: u8)
        ensures
            r == self@,
    {
        self.0
    }
}

/// One vehicle: the cell it stands on, its speed, how willing it is to
/// change lane, and the lane it started in.
#[derive(Clone, Copy, Debug, PartialEq, Eq, Structural)]
pub struct Vehicle {
    pub original_lane: u8,
    pub position: Position,
    pub velocity: Velocity,
    pub move_left_chance: Fraction,
    pub move_right_chance: Fraction,
}

/// A circular road of `len` cells per lane, one speed limit per lane.
///
/// A well-formed road (`wf`) keeps every vehicle on a cell of the road, at
/// most one vehicle on each cell, and every speed within its lane's limit.
#[derive(Clone, Debug)]
pub struct Road {
    pub len: u8,
    pub deceleration_probability: Fraction,
    pub vehicles: Vec<Vehicle>,
    pub speed_per_lane: Vec<Velocity>,
}

/// A non-negative rational number, `numerator / denominator`, with a
/// denominator of at least one; what the metrics of a road are given in.
#[derive(Clone, Copy, Debug, PartialEq, Eq, Structural)]
pub struct Quotient {
    pub numerator: u64,
    pub denominator: u64,
}

} // verus!
