use chrono::TimeZone;
use vstd::prelude::*;

verus! {

/// The earliest instant chrono represents, January 1, 262144 BCE at midnight
/// UTC, in milliseconds from the Unix epoch.
pub const MIN_UTC_MILLIS: i64 = -8334601228800000;

/// The latest instant chrono represents, the last millisecond of December 31,
/// 262142 CE UTC, in milliseconds from the Unix epoch.
pub const MAX_UTC_MILLIS: i64 = 8210266876799999;

/// Whether `millis` milliseconds from the Unix epoch name a UTC instant that
/// chrono can represent.
pub open spec fn utc_millis_in_range(millis: i64) -> bool {
    MIN_UTC_MILLIS <= millis <= MAX_UTC_MILLIS
}

/// Relies on chrono's `TimeZone::timestamp_millis_opt` for `Utc`, and on
/// `DateTime::timestamp_millis`: a count of milliseconds between
/// `NaiveDate::MIN` and the end of `NaiveDate::MAX` gives a single instant,
/// which converts back to the same count (chrono documents the round trip);
/// any other count gives none.
#[verifier::external_body]
fn utc_millis_checked(millis: i64) -> (r: Option<i64>)
    ensures
        r is Some <==> utc_millis_in_range(millis),
        r matches Some(v) ==> v == millis,
{
    match chrono::Utc.timestamp_millis_opt(millis).single() {
        Some(dt) => Some(dt.timestamp_millis()),
        None => None,
    }
}

/// A modification time: milliseconds since the Unix epoch, always a UTC
/// instant that chrono can represent.
#[derive(Clone, Copy, Debug, PartialEq, Eq, Hash)]
pub struct Timestamp {
    millis: i64,
}

impl Timestamp {
    pub closed spec fn spec_millis(self) -> i64 {
        self.millis
    }

    #[verifier::type_invariant]
    closed spec fn inv(self) -> bool {
        utc_millis_in_range(self.millis)
    }

    /// The instant `millis` milliseconds after the epoch, or `None` where it
    /// falls outside the representable range.
    pub fn from_millis(millis: i64) -> (r: Option<Timestamp>)
        ensures
            r is Some <==> utc_millis_in_range(millis),
            r matches Some(t) ==> t.spec_millis() == millis,
    {
        match utc_millis_checked(millis) {
            Some(v) => Some(Timestamp { millis: v }),
            None => None,
        }
    }

    /// Milliseconds since the epoch.
    pub fn millis(&self) -> (r: i64)
        ensures
            r == self.spec_millis(),
            utc_millis_in_range(r),
    {
        proof {
            use_type_invariant(self);
        }
        self.millis
    }
}

} // verus!
