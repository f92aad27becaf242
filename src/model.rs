//! A value taken through a sequence of transformations.
use crate::transformers::Transformer;
use vstd::prelude::*;

verus! {

/// Holds a value while transformations are applied to it in turn.
pub struct Model<R>(pub R);

impl<R> Model<R> {
    pub fn new(r: R) -> (m: Self)
        ensures
            m.0 == r,
    {
        Self(r)
    }

    /// Applies `t` to the value held.
    pub fn apply<T: Transformer<R>>(self, t: T) -> (m: Self)
        requires
            t.accepts(self.0),
        ensures
            t.relates(self.0, m.0),
    {
        let Model(r) = self;
        Model(t.transform(r))
    }

    /// The value held.
    pub fn finish(self) -> (r: R)
        ensures
            r == self.0,
    {
        self.0
    }
}

} // verus!
