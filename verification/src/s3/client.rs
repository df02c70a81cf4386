//! What a bucket listing reports, and how it is shown.

use vstd::prelude::*;

use chrono::TimeZone;

use crate::text::{pad_right, spec_pad_right};

verus! {

/// A moment in time: seconds since the Unix epoch, and nanoseconds within
/// the second.
#[derive(Clone, Copy)]
pub struct Timestamp {
    pub secs: i64,
    pub nanos: u32,
}

/// What a bucket listing reports of one bucket.
pub struct BucketInfo {
    pub name: String,
    /// When the bucket was created, if the service said.
    pub creation_date: Option<Timestamp>,
}

/// The RFC 3339 text of a moment in UTC, if the moment is representable.
/// The rendering is a function of the two numbers alone.
pub uninterp spec fn rfc3339_of(secs: i64, nanos: u32) -> Option<Seq<char>>;

/// Relies on chrono: `Utc.timestamp_opt(secs, nanos).single()` yields a
/// date-time exactly when the pair is in range, and `to_rfc3339_opts` with
/// whole seconds and a `Z` suffix renders it. Both depend on the two numbers
/// alone.
#[verifier::external_body]
fn rfc3339_utc(secs: i64, nanos: u32) -> (r: Option<String>)
    ensures
        match r {
            Some(s) => rfc3339_of(secs, nanos) == Some(s@),
            None => rfc3339_of(secs, nanos) is None,
        },
{
    chrono::Utc.timestamp_opt(secs, nanos).single().map(
        |d| d.to_rfc3339_opts(chrono::SecondsFormat::Secs, true),
    )
}

/// The text shown for a bucket's creation date: its RFC 3339 form in UTC, or
/// `Unknown` when the date is absent or unrepresentable.
pub open spec fn spec_creation_date_text(cd: Option<Timestamp>) -> Seq<char> {
    match cd {
        Option::None => "Unknown"@,
        Option::Some(ts) => match rfc3339_of(ts.secs, ts.nanos) {
            Option::Some(d) => d,
            Option::None => "Unknown"@,
        },
    }
}

/// One line of the bucket listing: the name padded to 30 columns, three
/// spaces, then the creation date.
pub open spec fn spec_bucket_line(name: Seq<char>, cd: Option<Timestamp>) -> Seq<char> {
    spec_pad_right(name, 30) + "   "@ + spec_creation_date_text(cd)
}

/// Render one line of the bucket listing.
pub fn bucket_line(info: &BucketInfo) -> (r: String)
    ensures
        r@ == spec_bucket_line(info.name@, info.creation_date),
{
    let mut out = pad_right(info.name.as_str(), 30);
    let date_text: String = match &info.creation_date {
        Option::None => "Unknown".to_owned(),
        Option::Some(ts) => match rfc3339_utc(ts.secs, ts.nanos) {
            Option::Some(s) => s,
            Option::None => "Unknown".to_owned(),
        },
    };
    out.append("   ");
    out.append(date_text.as_str());
    out
}

} // verus!
