use vstd::prelude::*;

verus! {

/// A running score.
#[derive(Clone, Copy, Debug, PartialEq, Eq, Structural)]
pub struct Score(pub usize);

impl Score {
    pub fn new() -> (r: Score)
        ensures
            r.0 == 0,
    {
        Score(0)
    }

    pub fn value(&self) -> (r: usize)
        ensures
            r == self.0,
    {
        self.0
    }

    /// Adds `by` points.
    pub fn score(&mut self, by: usize)
        requires
            old(self).0 + by <= usize::MAX,
        ensures
            final(self).0 == old(self).0 + by,
    {
        self.0 = self.0 + by;
    }
}

} // verus!
