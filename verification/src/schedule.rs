use vstd::prelude::*;
use crate::headers::chars_of;

verus! {

/// The format under which a schedule that is no number of seconds is
/// handed to the date parser: a date and a time of day. The format names
/// no offset from UTC, and the parser makes a point in time only of a text
/// that gives one, so no text in this form yields a delay: in effect a
/// schedule is honoured only where it is a number of seconds.
pub const DATETIME_FORMAT: &'static str = "%Y-%m-%d %H:%M:%S";

/// The number of seconds since the Unix epoch that `chrono` reads out of
/// `text` under the format `format`, or nothing where it rejects the text.
pub uninterp spec fn datetime_timestamp(text: Seq<char>, format: Seq<char>) -> Option<i64>;

/// Reads a point in time out of `text` with
/// `chrono::DateTime::parse_from_str` under the format `format` and takes
/// its `timestamp`, the seconds since the Unix epoch. What `chrono` makes
/// of a text is not stated here: the result is given the name
/// [`datetime_timestamp`], as a function of the text and the format alone.
#[verifier::external_body]
fn parse_datetime(text: &str, format: &str) -> (timestamp: Option<i64>)
    ensures
        timestamp == datetime_timestamp(text@, format@),
{
    match chrono::DateTime::parse_from_str(text, format) {
        Ok(moment) => Some(moment.timestamp()),
        Err(_) => None,
    }
}

/// Whether a character is a decimal digit.
pub open spec fn is_digit(c: char) -> bool {
    '0' <= c <= '9'
}

/// Every character of a text is a decimal digit.
pub open spec fn all_digits(s: Seq<char>) -> bool {
    forall|i: int| 0 <= i < s.len() ==> is_digit(#[trigger] s[i])
}

/// The number that a text of decimal digits stands for.
pub open spec fn digits_value(s: Seq<char>) -> nat
    decreases s.len(),
{
    if s.len() == 0 {
        0
    } else {
        digits_value(s.drop_last()) * 10 + (s.last() as u32 - '0' as u32) as nat
    }
}

/// A text without the plus sign that it may begin with.
pub open spec fn unsigned_part(s: Seq<char>) -> Seq<char> {
    if s.len() > 0 && s[0] == '+' {
        s.drop_first()
    } else {
        s
    }
}

/// The number that a text stands for: one or more decimal digits, after an
/// optional plus sign, whose value a counter can hold. Any other text
/// stands for nothing.
pub open spec fn parse_seconds_spec(s: Seq<char>) -> Option<u64> {
    let digits = unsigned_part(s);
    if digits.len() > 0 && all_digits(digits) && digits_value(digits) <= u64::MAX {
        Some(digits_value(digits) as u64)
    } else {
        None
    }
}

/// A timestamp as an unsigned number of seconds: a timestamp before the
/// epoch wraps round to the far end of the range.
pub open spec fn unsigned_timestamp(timestamp: i64) -> u64 {
    if timestamp < 0 {
        (timestamp + 0x1_0000_0000_0000_0000) as u64
    } else {
        timestamp as u64
    }
}

/// How many seconds to wait for a scheduled start, given what the schedule
/// reads as a number of seconds and what it reads as a point in time: the
/// number of seconds where there is one; else the time left until the
/// point in time, where there is one and it lies after `now`; else
/// nothing.
pub open spec fn delay_spec(seconds: Option<u64>, timestamp: Option<i64>, now: u64) -> Option<u64> {
    match seconds {
        Some(n) => Some(n),
        None => match timestamp {
            Some(t) => if unsigned_timestamp(t) > now {
                Some((unsigned_timestamp(t) - now) as u64)
            } else {
                None
            },
            None => None,
        },
    }
}

/// How many seconds to wait for the start that `schedule` asks for, at
/// `now` seconds since the Unix epoch.
pub open spec fn schedule_delay_spec(schedule: Option<Seq<char>>, now: u64) -> Option<u64> {
    match schedule {
        Some(text) => delay_spec(
            parse_seconds_spec(text),
            datetime_timestamp(text, DATETIME_FORMAT@),
            now,
        ),
        None => None,
    }
}

/// The value of a prefix of a text of digits is at most the value of the
/// text.
proof fn lemma_digits_value_grows(s: Seq<char>, k: int)
    requires
        0 <= k <= s.len(),
    ensures
        digits_value(s.take(k)) <= digits_value(s),
    decreases s.len() - k,
{
    if k < s.len() {
        lemma_digits_value_grows(s, k + 1);
        assert(s.take(k + 1).drop_last() =~= s.take(k));
    } else {
        assert(s.take(k) =~= s);
    }
}

/// Reads a number of seconds.
pub fn parse_seconds(text: &str) -> (seconds: Option<u64>)
    ensures
        seconds == parse_seconds_spec(text@),
{
    let chars = chars_of(text);
    let start: usize = if chars.len() > 0 && chars[0] == '+' {
        1
    } else {
        0
    };
    let ghost digits = unsigned_part(text@);
    assert(digits =~= chars@.skip(start as int));
    if start == chars.len() {
        return None;
    }
    let mut value: u64 = 0;
    let mut i: usize = start;
    while i < chars.len()
        invariant
            start <= i <= chars@.len(),
            digits == chars@.skip(start as int),
            digits == unsigned_part(text@),
            all_digits(digits.take(i - start)),
            value == digits_value(digits.take(i - start)),
        decreases chars@.len() - i,
    {
        let c = chars[i];
        let ghost seen = digits.take(i - start);
        let ghost next = digits.take(i - start + 1);
        proof {
            assert(next.drop_last() =~= seen);
            assert(next.last() == c);
        }
        if !('0' <= c && c <= '9') {
            assert(!is_digit(digits[i - start]));
            return None;
        }
        let digit: u64 = (c as u32 - '0' as u32) as u64;
        let grown = match value.checked_mul(10) {
            Some(tenfold) => tenfold.checked_add(digit),
            None => None,
        };
        match grown {
            Some(v) => {
                value = v;
            },
            None => {
                proof {
                    assert(digits_value(next) > u64::MAX);
                    lemma_digits_value_grows(digits, i - start + 1);
                }
                return None;
            },
        }
        i += 1;
    }
    assert(digits.take(i - start) =~= digits);
    Some(value)
}

/// Decides how long to wait, given what the schedule reads as a number of
/// seconds and what it reads as a point in time.
pub fn delay_from(seconds: Option<u64>, timestamp: Option<i64>, now: u64) -> (delay: Option<u64>)
    ensures
        delay == delay_spec(seconds, timestamp, now),
{
    match seconds {
        Some(n) => Some(n),
        None => match timestamp {
            Some(t) => {
                let at: u64 = if t < 0 {
                    (t as i128 + 0x1_0000_0000_0000_0000) as u64
                } else {
                    t as u64
                };
                if at > now {
                    Some(at - now)
                } else {
                    None
                }
            },
            None => None,
        },
    }
}

/// Reads a schedule at `now` seconds since the Unix epoch. A number of
/// seconds is the time to wait. Any other text is handed to the date
/// parser under [`DATETIME_FORMAT`], and the time to wait is what is left
/// until the point in time that the parser makes of it; as that format
/// names no offset, the parser makes none of a bare date and time of day,
/// and such a schedule yields no delay.
pub fn schedule_delay(schedule: Option<&str>, now: u64) -> (delay: Option<u64>)
    ensures
        delay == schedule_delay_spec(
            match schedule {
                Some(text) => Some(text@),
                None => None,
            },
            now,
        ),
{
    match schedule {
        Some(text) => {
            let seconds = parse_seconds(text);
            let timestamp = match seconds {
                Some(_) => None,
                None => parse_datetime(text, DATETIME_FORMAT),
            };
            delay_from(seconds, timestamp, now)
        },
        None => None,
    }
}

} // verus!
