//! Week arithmetic: timestamps, offsets and week indices.

use vstd::prelude::*;

verus! {

/// Number of seconds in a full calendar week (7 days).
pub const WEEK_SECONDS: u64 = 604800;

/// Number of nanoseconds in one second.
pub const NANOS_PER_SECOND: u64 = 1_000_000_000;

/// A timestamp in seconds shifted by a signed offset, clamped to the `u64` range.
pub open spec fn shifted_seconds(seconds: int, offset: int) -> int {
    if offset >= 0 {
        if seconds + offset > u64::MAX { u64::MAX as int } else { seconds + offset }
    } else {
        if seconds + offset < 0 { 0 } else { seconds + offset }
    }
}

/// The week a timestamp in seconds falls in, once shifted by `offset`.
pub open spec fn week_of(seconds: int, offset: int) -> int {
    shifted_seconds(seconds, offset) / (WEEK_SECONDS as int)
}

/// The magnitude of a signed 64-bit offset, as an unsigned value.
fn offset_magnitude(offset: i64) -> (r: u64)
    requires
        offset < 0,
    ensures
        r == -offset,
{
    if offset == i64::MIN {
        9_223_372_036_854_775_808u64
    } else {
        (-offset) as u64
    }
}

/// Shifts `seconds` by `offset`, saturating at both ends of the `u64` range.
pub fn adjust_with_offset(seconds: u64, offset: i64) -> (r: u64)
    ensures
        r == shifted_seconds(seconds as int, offset as int),
{
    if offset >= 0 {
        seconds.saturating_add(offset as u64)
    } else {
        seconds.saturating_sub(offset_magnitude(offset))
    }
}

/// Week index of a timestamp in seconds, after applying the week offset.
pub fn compute_week_id(timestamp_secs: u64, offset: i64) -> (r: u64)
    ensures
        r == week_of(timestamp_secs as int, offset as int),
{
    let adjusted = adjust_with_offset(timestamp_secs, offset);
    adjusted / WEEK_SECONDS
}

/// Later timestamps never fall in an earlier week.
pub proof fn lemma_week_of_monotonic(s1: int, s2: int, offset: int)
    requires
        0 <= s1 <= s2 <= u64::MAX,
    ensures
        week_of(s1, offset) <= week_of(s2, offset),
{
    assert(shifted_seconds(s1, offset) <= shifted_seconds(s2, offset));
    vstd::arithmetic::div_mod::lemma_div_is_ordered(
        shifted_seconds(s1, offset),
        shifted_seconds(s2, offset),
        WEEK_SECONDS as int,
    );
}

/// The host clock, in nanoseconds since the epoch.
///
/// Calls `ic_cdk::api::time`. Nothing is claimed of the value: it is the
/// current time of the replica.
#[verifier::external_body]
pub(crate) fn host_time_ns() -> u64 {
    ic_cdk::api::time()
}

/// The current time in whole seconds: the host clock's nanoseconds, divided
/// down.
pub fn now_secs() -> (r: u64)
    ensures
        r <= u64::MAX / NANOS_PER_SECOND,
        exists|t: u64| r == #[trigger] (t / NANOS_PER_SECOND),
{
    let t = host_time_ns();
    let r = t / NANOS_PER_SECOND;
    assert(r == t / NANOS_PER_SECOND);
    r
}

/// `value * factor`, clamped to `u64::MAX`.
pub open spec fn saturating_product(value: int, factor: int) -> int {
    if value * factor > u64::MAX { u64::MAX as int } else { value * factor }
}

/// Normalizes a timestamp given in seconds, milliseconds, microseconds or
/// nanoseconds to nanoseconds (saturating).
pub open spec fn normalized_ns(value: int) -> int {
    if value == 0 {
        0
    } else if value >= 1_000_000_000_000_000_000 {
        value
    } else if value >= 1_000_000_000_000_000 {
        saturating_product(value, 1_000)
    } else if value >= 1_000_000_000_000 {
        saturating_product(value, 1_000_000)
    } else {
        saturating_product(value, 1_000_000_000)
    }
}

/// Multiplication that clamps at `u64::MAX`.
fn saturating_mul_u64(value: u64, factor: u64) -> (r: u64)
    ensures
        r == saturating_product(value as int, factor as int),
{
    match value.checked_mul(factor) {
        Some(v) => v,
        None => u64::MAX,
    }
}

/// Normalize a timestamp coming from various sources (seconds, milliseconds,
/// microseconds, nanoseconds) into nanoseconds.
pub fn normalize_timestamp_ns(value: u64) -> (r: u64)
    ensures
        r == normalized_ns(value as int),
{
    if value == 0 {
        return 0;
    }
    if value >= 1_000_000_000_000_000_000 {
        value
    } else if value >= 1_000_000_000_000_000 {
        saturating_mul_u64(value, 1_000)
    } else if value >= 1_000_000_000_000 {
        saturating_mul_u64(value, 1_000_000)
    } else {
        saturating_mul_u64(value, 1_000_000_000)
    }
}

/// The week index (0-based) of a timestamp in nanoseconds.
pub open spec fn week_of_ns(timestamp_ns: int) -> int {
    (timestamp_ns / (NANOS_PER_SECOND as int)) / (WEEK_SECONDS as int)
}

/// Week index (0-based) from a timestamp in nanoseconds.
pub fn get_week_id(timestamp_ns: u64) -> (r: u64)
    ensures
        r == week_of_ns(timestamp_ns as int),
{
    (timestamp_ns / NANOS_PER_SECOND) / WEEK_SECONDS
}

} // verus!
