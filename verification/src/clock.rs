use vstd::prelude::*;

verus! {

/// The wall-clock time of this machine's time zone, in microseconds since the
/// Unix epoch: chrono's `Local::now().naive_local()`, read as if it were UTC.
/// Nothing is claimed about the value: two calls may return any two numbers.
#[verifier::external_body]
pub(crate) fn local_now_micros() -> (now: i64) {
    chrono::Local::now().naive_local().and_utc().timestamp_micros()
}

/// The time in whole seconds since the Unix epoch: chrono's
/// `Utc::now().timestamp()`. Nothing is claimed about the value.
#[verifier::external_body]
pub(crate) fn utc_now_seconds() -> (now: i64) {
    chrono::Utc::now().timestamp()
}

} // verus!
