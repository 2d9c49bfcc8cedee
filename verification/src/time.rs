//! Moments on a monotonic clock, and the time of the wall clock.

use crate::text;
use vstd::prelude::*;
use vstd::string::StrSliceExecFns;

verus! {

/// Nanoseconds in a second.
pub const SECOND: u64 = 1_000_000_000;

/// Nanoseconds in a millisecond.
pub const MILLISECOND: u64 = 1_000_000;

/// A moment, in nanoseconds since the clock's origin.
#[derive(Debug, Clone, Copy, PartialEq, Eq, Structural)]
pub struct Moment {
    /// Nanoseconds since the clock's origin.
    pub nanos: u64,
}

impl Moment {
    /// The nanoseconds from `earlier` to `self`: none when `earlier` is later.
    pub open spec fn since_spec(self, earlier: Moment) -> int {
        if self.nanos < earlier.nanos {
            0
        } else {
            self.nanos - earlier.nanos
        }
    }

    /// The nanoseconds from `earlier` to `self`: none when `earlier` is later.
    pub fn since(self, earlier: Moment) -> (nanos: u64)
        ensures
            nanos == self.since_spec(earlier),
    {
        self.nanos.saturating_sub(earlier.nanos)
    }

    /// The moment `nanos` later, pinned at the last one there is.
    pub open spec fn later_spec(self, nanos: int) -> Moment {
        Moment {
            nanos: if self.nanos + nanos > u64::MAX {
                u64::MAX
            } else {
                (self.nanos + nanos) as u64
            },
        }
    }

    /// The moment `nanos` later, pinned at the last one there is.
    pub fn later(self, nanos: u64) -> (moment: Moment)
        ensures
            moment == self.later_spec(nanos as int),
    {
        Moment { nanos: self.nanos.saturating_add(nanos) }
    }
}

/// The seconds that a local clock is ahead of the universal one, of an offset written
/// as a sign, two digits of hours and two of minutes, such as `+0530`.
pub open spec fn offset_of(written: Seq<char>) -> Option<int> {
    if written.len() == 5 && (written[0] == '+' || written[0] == '-') && text::all_digits(
        written.skip(1),
    ) && text::digit_value(written[3]) < 6 {
        let hours = 10 * text::digit_value(written[1]) + text::digit_value(written[2]);
        let minutes = 10 * text::digit_value(written[3]) + text::digit_value(written[4]);
        let seconds = 3600 * hours + 60 * minutes;
        Some(
            if written[0] == '-' {
                -seconds
            } else {
                seconds as int
            },
        )
    } else {
        None
    }
}

fn digit(c: char) -> (value: Option<i32>)
    ensures
        match value {
            Some(value) => '0' <= c <= '9' && value == text::digit_value(c) && value < 10,
            None => !('0' <= c <= '9'),
        },
{
    if '0' <= c && c <= '9' {
        Some((c as u32 - '0' as u32) as i32)
    } else {
        None
    }
}

/// Read the offset of a local clock.
pub fn parse_offset(written: &str) -> (offset: Option<i32>)
    ensures
        match offset {
            Some(offset) => offset_of(written@) == Some(offset as int),
            None => offset_of(written@) is None,
        },
{
    if written.unicode_len() != 5 {
        return None;
    }
    let sign: char = written.get_char(0);
    if sign != '+' && sign != '-' {
        return None;
    }
    let ghost digits = written@.skip(1);
    assert(digits[0] == written@[1] && digits[1] == written@[2] && digits[2] == written@[3]
        && digits[3] == written@[4]);
    match (
        digit(written.get_char(1)),
        digit(written.get_char(2)),
        digit(written.get_char(3)),
        digit(written.get_char(4)),
    ) {
        (Some(a), Some(b), Some(c), Some(d)) => {
            if c >= 6 {
                return None;
            }
            let seconds: i32 = 3600 * (10 * a + b) + 60 * (10 * c + d);
            if sign == '-' {
                Some(-seconds)
            } else {
                Some(seconds)
            }
        },
        _ => None,
    }
}

/// The seconds that a local clock shows when the universal one shows `seconds`: none
/// before the epoch.
pub open spec fn local_of(seconds: u64, offset: i32) -> u64 {
    let local = seconds + offset;
    if local < 0 {
        0
    } else if local > u64::MAX {
        u64::MAX
    } else {
        local as u64
    }
}

/// The seconds that a local clock shows when the universal one shows `seconds`.
pub fn local_seconds(seconds: u64, offset: i32) -> (local: u64)
    ensures
        local == local_of(seconds, offset),
{
    let local: i128 = seconds as i128 + offset as i128;
    if local < 0 {
        0
    } else if local > u64::MAX as i128 {
        u64::MAX
    } else {
        local as u64
    }
}

/// Going on for a while and looking back spans that while, unless the end of time is
/// reached; looking back from before spans nothing.
pub proof fn lemma_a_span_is_what_was_gone_on(
    start: Moment,
    nanos: u64,
    end: Moment,
    span: u64,
    back: u64,
)
    requires
        call_ensures(Moment::later, (start, nanos), end),
        call_ensures(Moment::since, (end, start), span),
        call_ensures(Moment::since, (start, end), back),
    ensures
        end.nanos >= start.nanos,
        start.nanos + nanos <= u64::MAX ==> span == nanos && end.nanos == start.nanos + nanos,
        start.nanos + nanos > u64::MAX ==> end.nanos == u64::MAX,
        back == 0,
{
}

/// An offset counts its hours and minutes in seconds, ahead with a plus and behind with a
/// minus; nothing but a sign and four digits with less than 60 minutes is one.
pub proof fn lemma_an_offset_counts_hours_and_minutes(
    written: &str,
    offset: Option<i32>,
    h: int,
    m: int,
)
    requires
        call_ensures(parse_offset, (written,), offset),
    ensures
        offset is Some ==> written@.len() == 5 && (written@[0] == '+' || written@[0] == '-'),
        offset is Some && written@[0] == '+' ==> 0 <= offset->0 < 100 * 3600,
        offset is Some && written@[0] == '-' ==> -100 * 3600 < offset->0 <= 0,
        written@.len() == 5 && (written@[0] == '+' || written@[0] == '-') && 0 <= h < 100 && 0 <= m
            < 60 && written@[1] as int == '0' as int + h / 10 && written@[2] as int == '0' as int
            + h % 10 && written@[3] as int == '0' as int + m / 10 && written@[4] as int
            == '0' as int + m % 10 ==> {
            &&& offset is Some
            &&& offset->0 == (if written@[0] == '-' {
                -(3600 * h + 60 * m)
            } else {
                3600 * h + 60 * m
            })
        },
{
    if written@.len() == 5 {
        let digits = written@.skip(1);
        assert(forall|i: int| 0 <= i < 4 ==> #[trigger] digits[i] == written@[i + 1]);
        assert(digits.len() == 4);
    }
}

/// A local clock is ahead of the universal one by its offset, from the epoch on.
pub proof fn lemma_a_local_clock_is_ahead_by_its_offset(seconds: u64, offset: i32, local: u64)
    requires
        call_ensures(local_seconds, (seconds, offset), local),
    ensures
        0 <= seconds + offset <= u64::MAX ==> local == seconds + offset,
        seconds + offset < 0 ==> local == 0,
{
}

} // verus!
