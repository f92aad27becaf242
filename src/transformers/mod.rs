//! The rules of a tick as separate transformations of a road, to be
//! applied one after another (see `Model`).
mod accelerate;
mod decelerate;
mod move_lane;
mod mover;
mod random;
mod recycling;

pub use accelerate::Accelerator;
pub use decelerate::{slowed, Decelerator};
pub use move_lane::LaneMover;
pub use mover::Mover;
pub use random::Randomizer;
pub use recycling::{recycled, Recycler};

use vstd::prelude::*;

verus! {

/// A transformation of an `R`.
pub trait Transformer<R>: Sized {
    /// The values the transformation is defined on.
    spec fn accepts(&self, r: R) -> bool;

    /// What the transformation makes of `before`: `after`.
    spec fn relates(&self, before: R, after: R) -> bool;

    fn transform(self, r: R) -> (out: R)
        requires
            self.accepts(r),
        ensures
            self.relates(r, out),
    ;
}

} // verus!
