use vstd::prelude::*;

verus! {

/// Earliest instant jiff can represent, in milliseconds since the Unix epoch
/// (`-009999-01-02T01:59:59Z`).
pub const TIMESTAMP_MIN_MS: i64 = -377705023201000;

/// Latest whole-millisecond instant that jiff accepts from a millisecond
/// count (`9999-12-30T22:00:00Z`).
pub const TIMESTAMP_MAX_MS: i64 = 253402207200000;

/// Whether `ms` milliseconds after the Unix epoch is an instant jiff supports.
pub open spec fn is_timestamp_ms(ms: int) -> bool {
    TIMESTAMP_MIN_MS <= ms <= TIMESTAMP_MAX_MS
}

/// Calls `jiff::Timestamp::from_millisecond`, whose documentation guarantees
/// that it fails exactly when the count lies outside `Timestamp::MIN` ..=
/// `Timestamp::MAX`; the bounds above are those of jiff's
/// `UnixEpochMilliseconds` range, which the constructor checks.
#[verifier::external_body]
fn jiff_accepts_millisecond(ms: i64) -> (ok: bool)
    ensures
        ok == is_timestamp_ms(ms as int),
{
    match jiff::Timestamp::from_millisecond(ms) {
        Ok(_) => true,
        Err(_) => false,
    }
}

/// `ms - delta_ms` when the difference is an instant jiff supports; `None`
/// where jiff's `checked_sub` fails.
pub fn checked_sub_ms(ms: i64, delta_ms: i64) -> (r: Option<i64>)
    requires
        is_timestamp_ms(ms as int),
    ensures
        r == (if is_timestamp_ms(ms - delta_ms) {
            Some((ms - delta_ms) as i64)
        } else {
            None::<i64>
        }),
{
    let t = ms as i128 - delta_ms as i128;
    if t < i64::MIN as i128 || t > i64::MAX as i128 {
        // Not even a millisecond count, so far outside jiff's range.
        return None;
    }
    if jiff_accepts_millisecond(t as i64) {
        Some(t as i64)
    } else {
        None
    }
}

} // verus!
