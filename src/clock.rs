use vstd::prelude::*;

verus! {

/// One reading of the local wall clock, in the three forms the store uses:
/// the date (`YYYY-MM-DD`), the rotation stamp (`YYYYMMDD_HHMMSS`) and the
/// RFC 3339 instant with its offset.
#[derive(Debug)]
pub struct ClockReading {
    pub date: String,
    pub stamp: String,
    pub rfc3339: String,
}

/// The two written forms of one instant agree: the date is
/// `<year>-MM-DD` and the stamp is `<year>MMDD_HHMMSS` with the same year text
/// (four digits, or signed outside 0 to 9999), month and day.
pub open spec fn reading_shape(date: Seq<char>, stamp: Seq<char>) -> bool {
    let y = date.len() - 6;
    &&& date.len() >= 10
    &&& date[y] == '-'
    &&& date[y + 3] == '-'
    &&& stamp.len() == date.len() + 5
    &&& stamp.subrange(0, y) == date.subrange(0, y)
    &&& stamp[y] == date[y + 1] && stamp[y + 1] == date[y + 2]
    &&& stamp[y + 2] == date[y + 4] && stamp[y + 3] == date[y + 5]
    &&& stamp[y + 4] == '_'
}

/// Relies on `chrono::Local::now` for the current local instant, and on
/// chrono's `format` and `to_rfc3339` to write it out. Nothing is promised of
/// the instant itself, which depends on the time; `%Y` writes the same year
/// text in both formats, `%m`, `%d`, `%H`, `%M` and `%S` two digits each.
#[verifier::external_body]
fn local_now() -> (r: ClockReading)
    ensures
        reading_shape(r.date@, r.stamp@),
{
    let now = chrono::Local::now();
    ClockReading {
        date: now.format("%Y-%m-%d").to_string(),
        stamp: now.format("%Y%m%d_%H%M%S").to_string(),
        rfc3339: now.to_rfc3339(),
    }
}

/// Reads the local clock once; one reading serves a whole append.
pub fn read_clock() -> (r: ClockReading)
    ensures
        reading_shape(r.date@, r.stamp@),
{
    local_now()
}

} // verus!
