use vstd::prelude::*;

verus! {

/// A position in decimal degrees, held in units of 10^-7 degree.
#[derive(Clone, Copy, Debug, PartialEq, Eq, Structural)]
pub struct Coordinate {
    pub lat_e7: i64,
    pub lon_e7: i64,
}

impl Coordinate {
    /// Where a freshly registered identity is placed before its first report.
    pub fn origin() -> (r: Coordinate)
        ensures
            r.lat_e7 == 0 && r.lon_e7 == 0,
    {
        Coordinate { lat_e7: 0, lon_e7: 0 }
    }
}

/// A reported position with the time it arrived, in milliseconds since the epoch.
#[derive(Clone, Copy, Debug, PartialEq, Eq, Structural)]
pub struct Sample {
    pub coord: Coordinate,
    pub at_ms: i64,
}

/// Whole seconds between two instants given in milliseconds, truncated toward zero.
pub open spec fn seconds_between(earlier_ms: int, later_ms: int) -> int {
    let d = later_ms - earlier_ms;
    if d >= 0 {
        d / 1000
    } else {
        -((-d) / 1000)
    }
}

/// Computes the whole seconds from `earlier` to `later`.
pub fn elapsed_seconds(earlier: &Sample, later: &Sample) -> (r: i64)
    ensures
        r as int == seconds_between(earlier.at_ms as int, later.at_ms as int),
{
    let d: i128 = later.at_ms as i128 - earlier.at_ms as i128;
    (d / 1000) as i64
}

} // verus!
