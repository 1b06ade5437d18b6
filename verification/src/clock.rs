//! Time, as the rest of the library sees it.
//!
//! Which moment it is when a clock is read is not known to any proof. How much
//! time lies between two moments is a function of the two, and every decision
//! that depends on it stands in a function that takes it as an argument.

use std::time::{Duration, Instant};
use vstd::prelude::*;

verus! {

/// `std::time::Instant`, carried as an opaque value.
#[verifier::external_type_specification]
#[verifier::external_body]
pub struct ExInstant(Instant);

/// `Instant::now`: the present moment. Nothing is claimed of the result.
pub assume_specification[ Instant::now ]() -> Instant;

/// The name of what `Instant::saturating_duration_since` returns.
pub uninterp spec fn time_between(earlier: Instant, later: Instant) -> Duration;

/// `Instant::saturating_duration_since`: the time from the earlier instant to
/// the later one, which the name `time_between` stands for. Of the length of
/// that time nothing is claimed.
pub assume_specification[ Instant::saturating_duration_since ](
    later: &Instant,
    earlier: Instant,
) -> (duration: Duration)
    ensures
        duration == time_between(earlier, *later),
;

/// The name of what `Duration::as_secs` returns.
pub uninterp spec fn whole_secs(duration: Duration) -> u64;

/// `Duration::as_secs`: the whole seconds of the duration, which the name
/// `whole_secs` stands for.
pub assume_specification[ Duration::as_secs ](duration: &Duration) -> (secs: u64)
    ensures
        secs == whole_secs(*duration),
;

/// The whole seconds from `earlier` to `later`.
pub open spec fn secs_between(earlier: Instant, later: Instant) -> u64 {
    whole_secs(time_between(earlier, later))
}

/// The whole seconds from `instant` to the moment of the call.
pub(crate) fn elapsed_secs(instant: &Instant) -> (elapsed: u64)
    ensures
        exists|now: Instant|
            call_ensures(Instant::now, (), now) && elapsed == #[trigger] secs_between(
                *instant,
                now,
            ),
{
    let now = Instant::now();
    let elapsed: u64 = now.saturating_duration_since(*instant).as_secs();
    assert(elapsed == secs_between(*instant, now));
    elapsed
}

/// The character is one of the ten digits.
pub open spec fn is_digit(c: char) -> bool {
    '0' <= c && c <= '9'
}

/// The characters from `from` to `to` are digits.
pub open spec fn are_digits(text: Seq<char>, from: int, to: int) -> bool {
    forall|i: int| from <= i < to ==> is_digit(#[trigger] text[i])
}

/// The text is a date, a time of day and an offset as RFC 3339 has them, with the
/// `T` between date and time at place `t`: a year of four digits, or a signed one
/// of at least four, month and day, hours, minutes and seconds, a fraction of the
/// second where there is one, and the offset in hours and minutes.
pub open spec fn is_stamp_at(text: Seq<char>, t: int) -> bool {
    let end = text.len() - 6;
    &&& 10 <= t
    &&& t + 9 <= end
    &&& t > 10 ==> (text[0] == '+' || text[0] == '-') && are_digits(text, 1, t - 10)
    &&& are_digits(text, t - 10, t - 6)
    &&& text[t - 6] == '-'
    &&& are_digits(text, t - 5, t - 3)
    &&& text[t - 3] == '-'
    &&& are_digits(text, t - 2, t)
    &&& text[t] == 'T'
    &&& are_digits(text, t + 1, t + 3)
    &&& text[t + 3] == ':'
    &&& are_digits(text, t + 4, t + 6)
    &&& text[t + 6] == ':'
    &&& are_digits(text, t + 7, t + 9)
    &&& t + 9 < end ==> text[t + 9] == '.' && are_digits(text, t + 10, end)
    &&& text[end] == '+' || text[end] == '-'
    &&& are_digits(text, end + 1, end + 3)
    &&& text[end + 3] == ':'
    &&& are_digits(text, end + 4, end + 6)
}

/// The text is a time stamp.
pub open spec fn is_stamp(text: Seq<char>) -> bool {
    exists|t: int| is_stamp_at(text, t)
}

/// The local time as an RFC 3339 text, from `chrono::Local::now` and
/// `DateTime::to_rfc3339`. Which time it is depends on the clock and the time
/// zone; what is claimed is how the text is made up.
#[verifier::external_body]
pub(crate) fn local_now_rfc3339() -> (text: String)
    ensures
        is_stamp(text@),
{
    chrono::Local::now().to_rfc3339()
}

/// The seconds between two instants are the whole ones of the time between them.
pub proof fn seconds_are_whole_ones(earlier: Instant, later: Instant)
    ensures
        secs_between(earlier, later) == whole_secs(time_between(earlier, later)),
{
}

/// A time stamp has a date, a `T`, a time and an offset.
pub proof fn stamp_has_its_marks(text: Seq<char>)
    requires
        is_stamp(text),
    ensures
        exists|t: int|
            {
                &&& 10 <= t
                &&& t + 15 <= text.len()
                &&& #[trigger] text[t] == 'T'
                &&& text[t - 6] == '-'
                &&& text[t - 3] == '-'
                &&& text[t + 3] == ':'
                &&& text[t + 6] == ':'
                &&& text[text.len() - 6] == '+' || text[text.len() - 6] == '-'
                &&& text[text.len() - 3] == ':'
                &&& '0' <= text[t - 7] && text[t - 7] <= '9'
                &&& '0' <= text[t - 1] && text[t - 1] <= '9'
                &&& '0' <= text[t + 8] && text[t + 8] <= '9'
            },
{
    let t = choose|t: int| is_stamp_at(text, t);
    assert(text[t] == 'T');
    assert(is_digit(text[t - 7]) && is_digit(text[t - 1]) && is_digit(text[t + 8]));
}

} // verus!
