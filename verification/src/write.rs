use vstd::prelude::*;

use crate::flow::Flow;
use crate::utils::GIB;

verus! {

/// Error code of the platform for "no space left on device".
pub const ENOSPC: i32 = 28;

/// How much a write run writes, and the number of its last file.
#[derive(Clone, Copy, PartialEq, Eq, Debug, Structural)]
pub struct FillPlan {
    /// Bytes to write in all.
    pub size: u64,
    /// Number of the last file to write.
    pub end_at: i64,
}

/// The plan of a write run from file `start_at` to file `end_at` on a device
/// with `free` bytes free, each file taking one GiB. Nothing can be written
/// where nothing is free. Where the files asked for are at least one and fit
/// in the whole GiB that are free, they are written in full. Else what is
/// free is written, and the last file is the one that the remainder falls
/// into.
pub open spec fn fill_plan(free: u64, start_at: i64, end_at: i64) -> Option<(int, int)> {
    let count = end_at - start_at + 1;
    let free_gib = free as int / GIB as int;
    if free == 0 {
        None
    } else if count > 0 && count <= free_gib {
        Some((count * GIB, end_at as int))
    } else {
        Some((free as int, start_at + free_gib))
    }
}

/// Whether the number of the last file of the plan fits in 64 bits, so that
/// `plan_fill` can be called.
pub fn plan_fits(free: u64, start_at: i64, end_at: i64) -> (fits: bool)
    ensures
        fits == (fill_plan(free, start_at, end_at) matches Some(plan) ==> plan.1 <= i64::MAX),
{
    let count: i128 = end_at as i128 - start_at as i128 + 1;
    let free_gib: u64 = free / GIB;
    free == 0 || (count > 0 && count <= free_gib as i128) || start_at as i128 + free_gib as i128
        <= i64::MAX as i128
}

/// Plans a write run from file `start_at` to file `end_at` on a device with
/// `free` bytes free. The number of the last file must fit in 64 bits.
pub fn plan_fill(free: u64, start_at: i64, end_at: i64) -> (plan: Option<FillPlan>)
    requires
        fill_plan(free, start_at, end_at) matches Some(plan) ==> plan.1 <= i64::MAX,
    ensures
        match plan {
            Some(plan) => fill_plan(free, start_at, end_at) == Some(
                (plan.size as int, plan.end_at as int),
            ),
            None => fill_plan(free, start_at, end_at) is None,
        },
{
    if free == 0 {
        return None;
    }
    let count: i128 = end_at as i128 - start_at as i128 + 1;
    let free_gib: u64 = free / GIB;
    if count > 0 && count <= free_gib as i128 {
        Some(FillPlan { size: (count as u64) * GIB, end_at })
    } else {
        Some(FillPlan { size: free, end_at: start_at + free_gib as i64 })
    }
}

/// Whether the failure to create a file, with the platform's error code
/// `raw_os_error` if it has one, means that the device is full. That ends
/// a write run in the regular way; any other failure is an error.
pub fn is_no_space(raw_os_error: Option<i32>) -> (full: bool)
    ensures
        full == (raw_os_error == Some(ENOSPC)),
{
    match raw_os_error {
        Some(code) => code == ENOSPC,
        None => false,
    }
}

/// Number of bytes to write next: the chunk that the flow controller asks
/// for, as far as `remaining` bytes of the file are still to be written.
pub fn write_size(chunk: u64, remaining: u64) -> (size: u64)
    ensures
        size == if chunk <= remaining {
            chunk
        } else {
            remaining
        },
{
    if chunk <= remaining {
        chunk
    } else {
        remaining
    }
}

/// The rate in bytes per second that the summary of a write run shows after
/// `total_time_ms` milliseconds: the average of the windows measured, where
/// they are enough or any time has passed at all; none else.
pub open spec fn writing_speed_of(flow: &Flow, total_time_ms: u64) -> Option<int> {
    if flow@.has_enough_measurements() || total_time_ms > 0 {
        Some(flow@.avg_speed())
    } else {
        None
    }
}

/// The rate in bytes per second for the summary of a write run that took
/// `total_time_ms` milliseconds, if there is one to show. A run that took
/// time must have measured some of it, else there is no average to take.
pub fn writing_speed(flow: &Flow, total_time_ms: u64) -> (speed: Option<u64>)
    requires
        flow@.has_enough_measurements() || total_time_ms == 0 || flow@.measured_time_ms > 0,
    ensures
        match speed {
            Some(rate) => writing_speed_of(flow, total_time_ms) == Some(rate as int),
            None => writing_speed_of(flow, total_time_ms) is None,
        },
{
    if flow.has_enough_measurements() || total_time_ms > 0 {
        Some(flow.get_avg_speed())
    } else {
        None
    }
}

} // verus!
