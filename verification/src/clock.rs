//! The time of day.
use vstd::prelude::*;

verus! {

/// Reads the clock with `chrono::Utc::now` and `DateTime::timestamp`: whole seconds since
/// 1970, not before it. The call panics on a machine whose clock is set before 1970.
#[verifier::external_body]
pub(crate) fn utc_seconds() -> (secs: i64)
    ensures
        secs >= 0,
{
    chrono::Utc::now().timestamp()
}

/// Reads the clock with `chrono::Utc::now` and `DateTime::timestamp_nanos_opt`: nanoseconds
/// since 1970, not before it, or nothing where they do not fit. The call panics on a
/// machine whose clock is set before 1970.
#[verifier::external_body]
pub(crate) fn utc_nanos() -> (nanos: Option<i64>)
    ensures
        nanos matches Some(n) ==> n >= 0,
{
    chrono::Utc::now().timestamp_nanos_opt()
}

} // verus!
