//! Times of day as part of a file name.

use vstd::prelude::*;

#[allow(unused_imports)]
use crate::text::opt_text;

verus! {

/// How a date and time is written: year, month, day, a `T`, hour, minute,
/// second and a `Z`.
pub const STAMP_FORMAT: &'static str = "%Y%m%dT%H%M%SZ";

/// The UTC date and time `secs` seconds after the start of 1970, written as
/// `format` says; `None` where the calendar of the `chrono` crate does not
/// reach so far.
pub uninterp spec fn stamp_at(secs: i64, format: Seq<char>) -> Option<Seq<char>>;

/// A character that such a date and time is written with.
pub open spec fn stamp_char(c: char) -> bool {
    '0' <= c <= '9' || c == 'T' || c == 'Z' || c == '+' || c == '-'
}

/// A text of such characters alone.
pub open spec fn stamp_chars(s: Seq<char>) -> bool {
    forall|i: int| 0 <= i < s.len() ==> stamp_char(#[trigger] s[i])
}

/// A text of such characters, sixteen of them, with the two letters where they
/// belong.
pub open spec fn stamp_shape(s: Seq<char>) -> bool {
    stamp_chars(s) && s.len() == 16 && s[8] == 'T' && s[15] == 'Z'
}

/// Calls `chrono::DateTime::format` on what `chrono::DateTime::from_timestamp`
/// gives for `secs`. Believed of it: the text depends on `secs` and `format`
/// alone; in `STAMP_FORMAT` it is made of digits, the letters `T` and `Z` and,
/// for a year that has not four digits, a sign; and each second from 1970 to
/// the end of the year 9999 has one, in which a `T` stands after eight
/// characters and a `Z` after fifteen, at the end. Not said: which digits they are. Other
/// formats are left out, as `chrono` panics on some.
#[verifier::external_body]
pub(crate) fn utc_stamp(secs: i64, format: &str) -> (out: Option<String>)
    requires
        format@ == STAMP_FORMAT@,
    ensures
        opt_text(out) == stamp_at(secs, format@),
        out is Some ==> stamp_chars(out->0@),
        0 <= secs <= 253_402_300_799 ==> out is Some && stamp_shape(out->0@),
{
    let time = chrono::DateTime::from_timestamp(secs, 0);
    time.map(|t| t.format(format).to_string())
}

} // verus!
