use vstd::prelude::*;

verus! {

/// Relies on chrono's `Local::now` and `DateTime::timestamp`: the device clock in
/// whole seconds since the Unix epoch. The value depends on the time, so nothing
/// is stated of it.
#[verifier::external_body]
pub(crate) fn local_now_seconds() -> i64 {
    chrono::Local::now().timestamp()
}

/// Relies on chrono's `Utc::now` and `DateTime::timestamp`: the system clock in
/// whole seconds since the Unix epoch. Nothing is stated of the value.
#[verifier::external_body]
pub(crate) fn utc_now_seconds() -> i64 {
    chrono::Utc::now().timestamp()
}

/// Relies on chrono's `Local::now`, `DateTime::offset` and
/// `FixedOffset::local_minus_utc`: the machine's current offset from UTC in
/// seconds, which depends on its time zone. A `FixedOffset` is only built by
/// `east_opt`/`west_opt`, which keep it strictly within one day.
#[verifier::external_body]
pub(crate) fn local_offset_seconds() -> (r: i32)
    ensures
        -86400 < r < 86400,
{
    chrono::Local::now().offset().local_minus_utc()
}

} // verus!
