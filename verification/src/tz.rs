//! Timezone facts, obtained from the IANA table compiled into `chrono_tz`.
//!
//! The library never inspects the table itself; it names the two facts it
//! needs — whether a timezone name is known, and which UTC offset the zone
//! applies at a given instant — and obtains them through trusted calls.

use vstd::prelude::*;

use crate::MAX_HORIZON_SECS;
use crate::MAX_INSTANT;

verus! {

/// Whether the timezone table compiled into the process knows `name`.
pub uninterp spec fn tz_valid(name: Seq<char>) -> bool;

/// The UTC offset, in seconds, that the timezone called `name` applies at
/// the UTC instant `utc`. Meaningful only where `tz_valid(name)` holds.
pub uninterp spec fn offset_at(name: Seq<char>, utc: int) -> int;

/// Relies on `chrono_tz::Tz`'s `FromStr`: whether a name parses is a
/// function of the name and of the timezone table compiled into the crate.
#[verifier::external_body]
pub(crate) fn tz_known(name: &str) -> (r: bool)
    ensures
        r == tz_valid(name@),
{
    name.parse::<chrono_tz::Tz>().is_ok()
}

/// Relies on `chrono_tz::Tz`'s `FromStr` and on chrono's
/// `TimeZone::offset_from_utc_datetime`: the offset is a function of the
/// name, the instant and the compiled-in table, and a `chrono::FixedOffset`
/// always lies strictly between -86400 and 86400 seconds.
#[verifier::external_body]
pub(crate) fn offset_at_utc(name: &str, utc: i64) -> (r: Option<i32>)
    requires
        0 <= utc <= MAX_INSTANT + MAX_HORIZON_SECS,
    ensures
        r is Some <==> tz_valid(name@),
        r matches Some(o) ==> o as int == offset_at(name@, utc as int) && -86400 < o < 86400,
{
    let tz: chrono_tz::Tz = match name.parse() {
        Ok(t) => t,
        Err(_) => return None,
    };
    let dt = chrono::DateTime::from_timestamp(utc, 0).unwrap();
    let off = chrono::TimeZone::offset_from_utc_datetime(&tz, &dt.naive_utc());
    Some(chrono::offset::Offset::fix(&off).local_minus_utc())
}

} // verus!
