//! Node ids drawn from the system clock.
use vstd::prelude::*;
use std::time::{Duration, SystemTime, UNIX_EPOCH};

verus! {

/// `std::time::SystemTime`, carried through as it is.
#[verifier::external_type_specification]
#[verifier::external_body]
pub struct ExSystemTime(SystemTime);

/// Calls `std::time::SystemTime::now`. The reading depends on the clock, so nothing is
/// promised of it.
#[verifier::external_body]
fn system_time_now() -> (now: SystemTime) {
    SystemTime::now()
}

/// Calls `std::time::SystemTime::duration_since` with `UNIX_EPOCH`; its error (a time
/// before the epoch) becomes `None`. The result depends on the clock reading, which is
/// opaque here, so nothing is promised of it.
#[verifier::external_body]
fn since_unix_epoch(t: &SystemTime) -> (d: Option<Duration>) {
    t.duration_since(UNIX_EPOCH).ok()
}

/// The whole number of nanoseconds in a duration, as `std::time::Duration::as_nanos`
/// gives it.
pub uninterp spec fn duration_as_nanos(d: Duration) -> u128;

/// Calls `std::time::Duration::as_nanos`, which returns the whole number of nanoseconds the
/// duration holds; the count depends on the duration alone and is named `duration_as_nanos`.
#[verifier::external_body]
fn duration_nanos(d: &Duration) -> (nanos: u128)
    ensures
        nanos == duration_as_nanos(*d),
{
    d.as_nanos()
}

/// The node id that a count of nanoseconds gives: the count modulo 101.
pub fn node_id_from_nanos(nanos: u128) -> (id: u32)
    ensures
        id == nanos % 101,
        id < 101,
{
    (nanos % 101) as u32
}

/// A node id drawn from the clock: the nanoseconds since the Unix epoch, modulo 101.
/// `None` when the clock reads a time before the epoch.
pub fn generate_node_id() -> (id: Option<u32>)
    ensures
        id matches Some(v) ==> v < 101,
        id matches Some(v) ==> exists|elapsed: Duration|
            v == (#[trigger] duration_as_nanos(elapsed) % 101) as u32,
{
    let now = system_time_now();
    node_id_from_elapsed(since_unix_epoch(&now))
}

/// The node id that the time elapsed since the Unix epoch gives: none exactly when no
/// elapsed time is given (the clock read a time before the epoch); otherwise the elapsed
/// nanoseconds modulo 101.
pub fn node_id_from_elapsed(elapsed: Option<Duration>) -> (id: Option<u32>)
    ensures
        id is None <==> elapsed is None,
        elapsed matches Some(d) ==> id == Some((duration_as_nanos(d) % 101) as u32),
        id matches Some(v) ==> v < 101,
{
    match elapsed {
        Some(elapsed) => Some(node_id_from_nanos(duration_nanos(&elapsed))),
        None => None,
    }
}

} // verus!
