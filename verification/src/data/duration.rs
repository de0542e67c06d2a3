use vstd::prelude::*;

verus! {

/// A span of time, counted in nanoseconds. It may be negative.
#[derive(Clone, Copy, Debug, PartialEq, Eq, Structural)]
pub struct Duration {
    pub nanos: i128,
}

impl Duration {
    /// The span of `nanos` nanoseconds.
    pub fn nanoseconds(nanos: i128) -> (d: Duration)
        ensures
            d.nanos == nanos,
    {
        Duration { nanos }
    }

    /// The span of `micros` microseconds.
    pub fn microseconds(micros: i64) -> (d: Duration)
        ensures
            d.nanos == micros * 1_000,
    {
        Duration { nanos: (micros as i128) * 1_000 }
    }

    /// The span of `seconds` seconds.
    pub fn seconds(seconds: i64) -> (d: Duration)
        ensures
            d.nanos == seconds * 1_000_000_000,
    {
        Duration { nanos: (seconds as i128) * 1_000_000_000 }
    }
}

} // verus!
