//! Retention policy.
//!
//! One duration says how long snapshots are kept.  Nothing of it is stored:
//! every sweep takes the cutoff anew from the clock and the duration it was
//! given.

use crate::codec::is_digit;
use vstd::prelude::*;

verus! {

/// How long snapshots are kept: the age, in whole seconds, that a snapshot
/// must have passed before a cleanup may delete it.
#[derive(Clone, Copy, Debug, PartialEq, Eq)]
pub struct Retention {
    pub seconds: u64,
}

/// The instant before which snapshots are old enough to delete, at `now`
/// under `keep`.
pub open spec fn cutoff_at(now: i64, keep: Retention) -> int {
    now - keep.seconds
}

/// The instant before which snapshots are old enough to delete, at `now`
/// under `keep`.
pub fn cutoff(now: i64, keep: Retention) -> (cutoff: i128)
    ensures
        cutoff == cutoff_at(now, keep),
{
    now as i128 - keep.seconds as i128
}

/// The whole seconds of the duration that `text` denotes in the notation of
/// `humantime::parse_duration` (`7d`, `30m`, `1h 30min`), or nothing where
/// `text` is no duration in that notation.
pub uninterp spec fn humantime_seconds(text: Seq<char>) -> Option<u64>;

/// `humantime::DurationError`, what `humantime::parse_duration` says of a
/// text that it cannot read.  Nothing is known of what is inside one.
#[verifier::external_type_specification]
#[verifier::external_body]
pub struct ExDurationError(humantime::DurationError);

/// How many decimal digits `text` holds.
pub open spec fn digit_count(text: Seq<char>) -> nat
    decreases text.len(),
{
    if text.len() == 0 {
        0
    } else {
        digit_count(text.drop_last()) + if is_digit(text.last()) {
            1nat
        } else {
            0nat
        }
    }
}

/// The most digits that a duration may be written with.
pub const MAX_DIGITS: usize = 11;

/// Reads a duration.
///
/// Calls `humantime::parse_duration` on `text` and takes the whole seconds
/// (`as_secs`) of the duration that comes back.  The contract claims that
/// the outcome depends on `text` alone, and gives it the name
/// `humantime_seconds`; it claims nothing of which texts are durations.
///
/// `humantime::parse_duration` adds the seconds up with a check, and then
/// builds a `Duration` from seconds and nanoseconds without one, which
/// panics when the seconds are at `u64::MAX` and the nanoseconds make one
/// second more.  A text of at most eleven digits cannot denote as many
/// seconds, whatever its units; texts with more digits are left out.
#[verifier::external_body]
pub(crate) fn parse_seconds(text: &str) -> (seconds: Result<u64, humantime::DurationError>)
    requires
        digit_count(text@) <= MAX_DIGITS,
    ensures
        match seconds {
            Ok(seconds) => humantime_seconds(text@) == Some(seconds),
            Err(_) => humantime_seconds(text@) is None,
        },
{
    humantime::parse_duration(text).map(|duration| duration.as_secs())
}

/// Counts the decimal digits of `text`, up to `usize::MAX`.
pub fn count_digits(text: &str) -> (count: usize)
    ensures
        count == digit_count(text@) || (count == usize::MAX && digit_count(text@) >= usize::MAX),
{
    let mut count: usize = 0;
    for c in it: text.chars()
        invariant
            count == digit_count(it.seq().take(it.index())) || (count == usize::MAX
                && digit_count(it.seq().take(it.index())) >= usize::MAX),
            it.seq() == text@,
    {
        proof {
            assert(it.seq().take(it.index() + 1).drop_last() =~= it.seq().take(it.index()));
            assert(it.seq().take(it.index() + 1).last() == c);
        }
        if '0' <= c && c <= '9' && count < usize::MAX {
            count += 1;
        }
    }
    proof {
        assert(text@.take(text@.len() as int) =~= text@);
    }
    count
}

/// What a text says of how long to keep snapshots: a retention where the
/// text is a duration written with at most eleven digits, nothing else.
pub open spec fn retention_of(text: Seq<char>) -> Option<Retention> {
    if digit_count(text) <= MAX_DIGITS {
        match humantime_seconds(text) {
            Some(seconds) => Some(Retention { seconds }),
            None => None,
        }
    } else {
        None
    }
}

impl Retention {
    /// Reads a retention such as `7d` or `1h 30min`.
    ///
    /// The notation is that of `humantime`; fractions of a second are
    /// dropped.  A text with more than eleven digits is refused unread.
    pub fn parse(text: &str) -> (retention: Option<Retention>)
        ensures
            retention == retention_of(text@),
    {
        if count_digits(text) > MAX_DIGITS {
            return None;
        }
        match parse_seconds(text) {
            Ok(seconds) => Some(Retention { seconds }),
            Err(_) => None,
        }
    }
}

} // verus!
