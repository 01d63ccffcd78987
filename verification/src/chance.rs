//! Draws by chance, each kept with the range it was drawn from.
use vstd::prelude::*;
use crate::processor::{gen_range, thread_rng};

verus! {

/// A number drawn by chance from the half-open range `low..high`. Only
/// `draw` makes one, so a draw's range is the range it was drawn from.
pub struct Draw {
    value: u64,
    low: u64,
    high: u64,
}

impl Draw {
    /// The number drawn.
    pub closed spec fn drawn(&self) -> u64 {
        self.value
    }

    /// The lowest number that could be drawn.
    pub closed spec fn low(&self) -> u64 {
        self.low
    }

    /// The number above the highest that could be drawn.
    pub closed spec fn high(&self) -> u64 {
        self.high
    }

    /// The number drawn.
    pub fn get(&self) -> (res: u64)
        ensures
            res == self.drawn(),
    {
        self.value
    }
}

/// Draws a number from `low..high` with this thread's random number
/// generator.
pub fn draw(low: u64, high: u64) -> (res: Draw)
    requires
        low < high,
    ensures
        res.low() == low,
        res.high() == high,
        low <= res.drawn() < high,
{
    let mut rng = thread_rng();
    let value = gen_range(&mut rng, low, high);
    Draw { value, low, high }
}

} // verus!
