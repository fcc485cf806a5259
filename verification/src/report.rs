//! Values that the status report after boot prints.

use vstd::prelude::*;

verus! {

/// Thousandths of a degree in one degree.
pub const MILLIDEGREES: u32 = 1000;

/// The whole degrees in a temperature that the firmware reports in
/// thousandths of a degree, rounded down.
pub fn whole_degrees(millidegrees: u32) -> (degrees: u32)
    ensures
        degrees == millidegrees / MILLIDEGREES,
{
    millidegrees / MILLIDEGREES
}

} // verus!
