//! The time of day, as messages carry it.

use vstd::prelude::*;

verus! {

/// Whether `c` is one of the digits `0` to `9`.
pub open spec fn is_digit(c: char) -> bool {
    '0' <= c && c <= '9'
}

/// Whether `text` has the form of a time of day: two digits for the hour,
/// two for the minute and two for the second, with a colon between them.
pub open spec fn is_clock_text(text: Seq<char>) -> bool {
    &&& text.len() == 8
    &&& is_digit(text[0])
    &&& is_digit(text[1])
    &&& text[2] == ':'
    &&& is_digit(text[3])
    &&& is_digit(text[4])
    &&& text[5] == ':'
    &&& is_digit(text[6])
    &&& is_digit(text[7])
}

/// Asks chrono for the local time, `chrono::Local::now`, and has it written
/// with `format("%H:%M:%S")`. The contract claims the form that chrono
/// documents for these three items, each padded with zeros to two digits,
/// and nothing of the time itself. chrono panics where the system's clock
/// stands before 1970.
#[verifier::external_body]
pub(crate) fn clock_text() -> (stamp: String)
    ensures
        is_clock_text(stamp@),
{
    chrono::Local::now().format("%H:%M:%S").to_string()
}

} // verus!
