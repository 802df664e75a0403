//! Timestamps that may be missing.
use vstd::prelude::*;

verus! {

/// The value ffmpeg stores for a missing timestamp.
pub const AV_NOPTS_VALUE: i64 = -9223372036854775808;

/// The timestamp that a stored value stands for: none for the missing
/// value, the value itself otherwise.
pub open spec fn timestamp_of(val: i64) -> Option<i64> {
    if val == AV_NOPTS_VALUE {
        None
    } else {
        Some(val)
    }
}

/// The value stored for a timestamp: the missing value for none.
pub open spec fn stored_of(val: Option<i64>) -> i64 {
    match val {
        Some(v) => v,
        None => AV_NOPTS_VALUE,
    }
}

/// Checks if a value is `AV_NOPTS_VALUE` and returns `None` if it is.
pub fn check_i64(val: i64) -> (r: Option<i64>)
    ensures
        r == timestamp_of(val),
{
    if val == AV_NOPTS_VALUE {
        None
    } else {
        Some(val)
    }
}

/// Returns the value if it is `Some`, otherwise `AV_NOPTS_VALUE`.
pub fn or_nopts(val: Option<i64>) -> (r: i64)
    ensures
        r == stored_of(val),
{
    if let Some(val) = val {
        val
    } else {
        AV_NOPTS_VALUE
    }
}

/// Storing a timestamp and reading it back gives it back, unless it is the
/// one value that stands for a missing timestamp.
pub proof fn lemma_stored_timestamp_roundtrip(val: Option<i64>)
    requires
        val != Some(AV_NOPTS_VALUE),
    ensures
        timestamp_of(stored_of(val)) == val,
{
}

/// Reading a stored value and storing it again keeps it.
pub proof fn lemma_timestamp_stored_roundtrip(val: i64)
    ensures
        stored_of(timestamp_of(val)) == val,
{
}

} // verus!
