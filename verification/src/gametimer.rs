use vstd::prelude::*;

verus! {

/// How fast the simulation runs against the clock.
#[derive(Clone, Copy, PartialEq, Eq, Structural, Debug, Hash)]
pub enum TickRate {
    Paused,
    X4,
}

impl Default for TickRate {
    fn default() -> (r: Self)
        ensures
            r == TickRate::X4,
    {
        TickRate::X4
    }
}

/// The factor by which a rate stretches time.
pub open spec fn scalar(rate: TickRate) -> int {
    match rate {
        TickRate::Paused => 0,
        TickRate::X4 => 4,
    }
}

/// The simulated time, in nanoseconds, that passes in `nanos` on the clock.
pub fn scaled_time(rate: TickRate, nanos: u64) -> (scaled: u64)
    requires
        nanos * scalar(rate) <= u64::MAX,
    ensures
        scaled == nanos * scalar(rate),
{
    match rate {
        TickRate::Paused => 0,
        TickRate::X4 => nanos * 4,
    }
}

} // verus!
