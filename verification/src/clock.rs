//! The wall clock, read as text.

use vstd::prelude::*;

verus! {

/// A decimal digit.
pub open spec fn is_digit(c: char) -> bool {
    '0' <= c && c <= '9'
}

/// The shape of a time stamp: it ends in the last four digits of the year
/// and `-MM-DD HH:MM:SS`. What stands before them, the sign and the leading
/// digits of a year outside 0 to 9999, is left open.
pub open spec fn is_stamp(s: Seq<char>) -> bool {
    let n = s.len() as int;
    &&& n >= 19
    &&& is_digit(s[n - 19])
    &&& is_digit(s[n - 18])
    &&& is_digit(s[n - 17])
    &&& is_digit(s[n - 16])
    &&& s[n - 15] == '-'
    &&& is_digit(s[n - 14])
    &&& is_digit(s[n - 13])
    &&& s[n - 12] == '-'
    &&& is_digit(s[n - 11])
    &&& is_digit(s[n - 10])
    &&& s[n - 9] == ' '
    &&& is_digit(s[n - 8])
    &&& is_digit(s[n - 7])
    &&& s[n - 6] == ':'
    &&& is_digit(s[n - 5])
    &&& is_digit(s[n - 4])
    &&& s[n - 3] == ':'
    &&& is_digit(s[n - 2])
    &&& is_digit(s[n - 1])
}

/// The local time of the machine, to the second: `chrono::Local::now`,
/// written out by `DateTime::format` with the pattern `%Y-%m-%d %H:%M:%S`.
/// Which time comes back is the clock's matter; only the shape that the
/// pattern gives every time is claimed: the year is written with four digits
/// at least, each other field with two.
#[verifier::external_body]
pub fn now() -> (stamp: String)
    ensures
        is_stamp(stamp@),
{
    chrono::Local::now().format("%Y-%m-%d %H:%M:%S").to_string()
}

} // verus!
