//! Timestamps without an offset, and what the local time zone makes of
//! them.

use crate::host::{HostValue, NaiveTimestamp};
use crate::value::Timestamp;
use chrono::{Offset, TimeZone};
use vstd::prelude::*;

verus! {

/// Whether `resolved` is an instant that some time zone could give to the
/// wall-clock reading `naive`: the offset is less than a day either way,
/// the instant is the reading less the offset, and the nanoseconds are the
/// reading's.
pub open spec fn resolves(naive: NaiveTimestamp, resolved: Timestamp) -> bool {
    &&& -86_400 < resolved.offset_seconds < 86_400
    &&& resolved.seconds == naive.seconds - resolved.offset_seconds
    &&& resolved.nanos == naive.nanos
}

/// Asks `chrono::Local`, through `TimeZone::from_local_datetime`, which
/// instant the wall-clock reading `naive` is in the machine's time zone,
/// and fixes the offset that was found.
///
/// The answer depends on the machine's time zone, so nothing is claimed of
/// whether there is one: chrono gives none where the reading falls into a
/// gap or a fold of local time, or lies outside the dates it can
/// represent. Where there is one, chrono built it by subtracting an offset
/// of less than a day from the reading, which is what the contract states.
#[verifier::external_body]
fn resolve_in_local_zone(naive: NaiveTimestamp) -> (resolved: Option<Timestamp>)
    ensures
        resolved matches Some(t) ==> resolves(naive, t),
{
    let wall = chrono::DateTime::from_timestamp(naive.seconds, naive.nanos)?.naive_utc();
    let local = chrono::Local.from_local_datetime(&wall).single()?;
    let fixed = local.with_timezone(&local.offset().fix());
    Some(
        Timestamp {
            seconds: fixed.timestamp(),
            nanos: fixed.timestamp_subsec_nanos(),
            offset_seconds: fixed.offset().local_minus_utc(),
        },
    )
}

impl HostValue {
    /// The host value for a timestamp without an offset: the reading,
    /// together with the instant that the machine's time zone gives it.
    pub fn local_timestamp(naive: NaiveTimestamp) -> (h: HostValue)
        ensures
            h matches HostValue::LocalTimestamp { naive: reading, resolved } && reading == naive
                && (resolved matches Some(t) ==> resolves(naive, t)),
    {
        HostValue::LocalTimestamp { naive, resolved: resolve_in_local_zone(naive) }
    }
}

} // verus!
