//! Aggregated outcome counters for a load-driving client: how many
//! requests were granted, rejected, timed out or failed, and the total
//! time spent in each class.

use vstd::prelude::*;

verus! {

/// Outcome counters for a run of lease requests.
#[derive(Debug, PartialEq, Eq, Structural)]
pub struct LoopResult {
    pub granted_time: u128,
    pub granted_count: i32,
    pub rejected_time: u128,
    pub rejected_count: i32,
    pub timeout_time: u128,
    pub timeout_count: i32,
    pub error_time: u128,
    pub error_count: i32,
}

impl LoopResult {
    /// The empty tally.
    pub fn new() -> (r: LoopResult)
        ensures
            r == (LoopResult {
                granted_time: 0u128,
                granted_count: 0i32,
                rejected_time: 0u128,
                rejected_count: 0i32,
                timeout_time: 0u128,
                timeout_count: 0i32,
                error_time: 0u128,
                error_count: 0i32,
            }),
    {
        LoopResult {
            granted_time: 0,
            granted_count: 0,
            rejected_time: 0,
            rejected_count: 0,
            timeout_time: 0,
            timeout_count: 0,
            error_time: 0,
            error_count: 0,
        }
    }

    /// One granted request that took `time` milliseconds.
    pub fn new_granted(time: u128) -> (r: LoopResult)
        ensures
            r.granted_time == time && r.granted_count == 1i32,
            r.rejected_time == 0u128 && r.rejected_count == 0i32,
            r.timeout_time == 0u128 && r.timeout_count == 0i32,
            r.error_time == 0u128 && r.error_count == 0i32,
    {
        LoopResult { granted_time: time, granted_count: 1, ..LoopResult::new() }
    }

    /// One rejected request that took `time` milliseconds.
    pub fn new_rejected(time: u128) -> (r: LoopResult)
        ensures
            r.rejected_time == time && r.rejected_count == 1i32,
            r.granted_time == 0u128 && r.granted_count == 0i32,
            r.timeout_time == 0u128 && r.timeout_count == 0i32,
            r.error_time == 0u128 && r.error_count == 0i32,
    {
        LoopResult { rejected_time: time, rejected_count: 1, ..LoopResult::new() }
    }

    /// One timed-out request that took `time` milliseconds.
    pub fn new_timeout(time: u128) -> (r: LoopResult)
        ensures
            r.timeout_time == time && r.timeout_count == 1i32,
            r.granted_time == 0u128 && r.granted_count == 0i32,
            r.rejected_time == 0u128 && r.rejected_count == 0i32,
            r.error_time == 0u128 && r.error_count == 0i32,
    {
        LoopResult { timeout_time: time, timeout_count: 1, ..LoopResult::new() }
    }

    /// One failed request that took `time` milliseconds.
    pub fn new_error(time: u128) -> (r: LoopResult)
        ensures
            r.error_time == time && r.error_count == 1i32,
            r.granted_time == 0u128 && r.granted_count == 0i32,
            r.rejected_time == 0u128 && r.rejected_count == 0i32,
            r.timeout_time == 0u128 && r.timeout_count == 0i32,
    {
        LoopResult { error_time: time, error_count: 1, ..LoopResult::new() }
    }

    /// Merge two tallies field by field.
    pub fn add(self, other: LoopResult) -> (r: LoopResult)
        requires
            self.granted_time + other.granted_time <= u128::MAX,
            self.granted_count + other.granted_count <= i32::MAX,
            self.rejected_time + other.rejected_time <= u128::MAX,
            self.rejected_count + other.rejected_count <= i32::MAX,
            self.timeout_time + other.timeout_time <= u128::MAX,
            self.timeout_count + other.timeout_count <= i32::MAX,
            self.error_time + other.error_time <= u128::MAX,
            self.error_count + other.error_count <= i32::MAX,
            0 <= self.granted_count && 0 <= other.granted_count,
            0 <= self.rejected_count && 0 <= other.rejected_count,
            0 <= self.timeout_count && 0 <= other.timeout_count,
            0 <= self.error_count && 0 <= other.error_count,
        ensures
            r.granted_time == self.granted_time + other.granted_time,
            r.granted_count == self.granted_count + other.granted_count,
            r.rejected_time == self.rejected_time + other.rejected_time,
            r.rejected_count == self.rejected_count + other.rejected_count,
            r.timeout_time == self.timeout_time + other.timeout_time,
            r.timeout_count == self.timeout_count + other.timeout_count,
            r.error_time == self.error_time + other.error_time,
            r.error_count == self.error_count + other.error_count,
    {
        LoopResult {
            granted_time: self.granted_time + other.granted_time,
            granted_count: self.granted_count + other.granted_count,
            rejected_time: self.rejected_time + other.rejected_time,
            rejected_count: self.rejected_count + other.rejected_count,
            timeout_time: self.timeout_time + other.timeout_time,
            timeout_count: self.timeout_count + other.timeout_count,
            error_time: self.error_time + other.error_time,
            error_count: self.error_count + other.error_count,
        }
    }
}

} // verus!
