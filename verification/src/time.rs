//! Points in time and durations, in nanoseconds. A point in time counts from some start that
//! whoever reads the clock chooses.
use vstd::prelude::*;

verus! {

pub const MICROSECOND: u64 = 1_000;

pub const MILLISECOND: u64 = 1_000_000;

pub const SECOND: u64 = 1_000_000_000;

/// How long `now` is after `then`: nothing where `then` is yet to come.
pub open spec fn elapsed(then: int, now: int) -> int {
    if then <= now {
        now - then
    } else {
        0
    }
}

} // verus!
