use vstd::prelude::*;

verus! {

/// Hit points a ship starts with.
pub const STARTING_HEALTH: u32 = 5;

/// The ship's remaining hit points.
#[derive(Clone, Copy, Debug, PartialEq, Eq, Structural)]
pub struct Health(pub u32);

impl Default for Health {
    fn default() -> (r: Health)
        ensures
            r == Health(STARTING_HEALTH),
    {
        Health(STARTING_HEALTH)
    }
}

impl Health {
    pub fn value(&self) -> (r: u32)
        ensures
            r == self.0,
    {
        self.0
    }

    pub fn add(self, rhs: u32) -> (r: Health)
        requires
            self.0 + rhs <= u32::MAX,
        ensures
            r.0 == self.0 + rhs,
    {
        Health(self.0 + rhs)
    }

    pub fn add_assign(&mut self, rhs: u32)
        requires
            old(self).0 + rhs <= u32::MAX,
        ensures
            final(self).0 == old(self).0 + rhs,
    {
        self.0 = self.0 + rhs;
    }

    pub fn sub(self, rhs: u32) -> (r: Health)
        requires
            rhs <= self.0,
        ensures
            r.0 == self.0 - rhs,
    {
        Health(self.0 - rhs)
    }

    pub fn sub_assign(&mut self, rhs: u32)
        requires
            rhs <= old(self).0,
        ensures
            final(self).0 == old(self).0 - rhs,
    {
        self.0 = self.0 - rhs;
    }

    /// Whether the hit points equal `other`.
    pub fn eq(&self, other: &u32) -> (r: bool)
        ensures
            r == (self.0 == *other),
    {
        self.0 == *other
    }

    /// How the hit points compare with `other`.
    pub fn partial_cmp(&self, other: &u32) -> (r: Option<core::cmp::Ordering>)
        ensures
            self.0 < *other ==> r == Some(core::cmp::Ordering::Less),
            self.0 == *other ==> r == Some(core::cmp::Ordering::Equal),
            self.0 > *other ==> r == Some(core::cmp::Ordering::Greater),
    {
        if self.0 < *other {
            Some(core::cmp::Ordering::Less)
        } else if self.0 == *other {
            Some(core::cmp::Ordering::Equal)
        } else {
            Some(core::cmp::Ordering::Greater)
        }
    }
}

} // verus!
