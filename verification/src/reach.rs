//! How a measured distance stands to a range it is compared with.

use vstd::prelude::*;

verus! {

/// The range, in world units, within which the cursor picks up a tamed enemy
/// or drops it into a puzzle slot.
pub const PICKUP_RADIUS: u16 = 12;

/// The outcome of comparing a distance with a range. The rules never see the
/// distance itself, only on which side of the range it lies.
#[derive(Debug, Clone, Copy, PartialEq, Eq, Structural)]
pub enum Reach {
    /// The distance is strictly smaller than the range.
    Inside,
    /// The distance equals the range.
    OnEdge,
    /// The distance is strictly larger than the range.
    Outside,
    /// The two cannot be ordered, as when a coordinate is not a number.
    Unordered,
}

impl Reach {
    /// The distance is strictly below the range.
    pub open spec fn within(self) -> bool {
        self == Reach::Inside
    }

    /// The distance is not strictly above the range.
    pub open spec fn not_beyond(self) -> bool {
        self != Reach::Outside
    }

    /// Whether the distance is strictly below the range.
    pub fn is_within(self) -> (b: bool)
        ensures
            b == self.within(),
    {
        match self {
            Reach::Inside => true,
            _ => false,
        }
    }

    /// Whether the distance is not strictly above the range. An unordered
    /// comparison counts as not beyond.
    pub fn is_not_beyond(self) -> (b: bool)
        ensures
            b == self.not_beyond(),
    {
        match self {
            Reach::Outside => false,
            _ => true,
        }
    }
}

} // verus!
