use chrono::NaiveDateTime;
use vstd::prelude::*;

verus! {

/// chrono's `NaiveDateTime`, carried through as an opaque value.
#[verifier::external_type_specification]
#[verifier::external_body]
pub struct ExNaiveDateTime(NaiveDateTime);

/// The calendar date and time, in UTC, that a count of seconds since the Unix epoch
/// stands for.
pub uninterp spec fn datetime_of(secs: u32) -> NaiveDateTime;

/// Relies on chrono's `NaiveDateTime::from_timestamp`: the UTC date and time `secs`
/// seconds after the Unix epoch. It panics only beyond about 262,000 years, which no
/// `u32` count reaches.
#[verifier::external_body]
#[allow(deprecated)]
pub(crate) fn datetime_from_timestamp(secs: u32) -> (r: NaiveDateTime)
    ensures
        r == datetime_of(secs),
{
    NaiveDateTime::from_timestamp(i64::from(secs), 0)
}

} // verus!
