//! Wall-clock times of day, and their `HH:MM:SS` log-line representation.
use crate::TimerError;
use vstd::prelude::*;

verus! {

/// ASCII `'0'`.
pub const DIGIT_ZERO: u8 = 48;

/// ASCII `':'`, the separator between the components of a time line.
pub const COLON: u8 = 58;

/// The byte rendering a single decimal digit.
pub open spec fn digit_byte(d: int) -> u8 {
    (DIGIT_ZERO + d) as u8
}

/// Whether a byte is an ASCII decimal digit.
pub open spec fn is_digit_byte(b: u8) -> bool {
    DIGIT_ZERO <= b && b <= DIGIT_ZERO + 9
}

/// The value of an ASCII decimal digit byte.
pub open spec fn digit_value(b: u8) -> int {
    b - DIGIT_ZERO
}

/// A number below 100 rendered as exactly two decimal digits, zero-padded.
pub open spec fn two_digits(n: int) -> Seq<u8> {
    seq![digit_byte(n / 10), digit_byte(n % 10)]
}

/// A wall-clock time of day with second precision. A day log stores one such
/// time per line; the date itself is implied by the log's file identity, so
/// no date component is carried here.
#[derive(Clone, Copy, Debug, PartialEq, Eq, Structural)]
pub struct TimeOfDay {
    pub hour: u8,
    pub minute: u8,
    pub second: u8,
}

impl TimeOfDay {
    /// A well-formed time of day: 24-hour clock, minutes and seconds below 60.
    pub open spec fn wf(self) -> bool {
        self.hour < 24 && self.minute < 60 && self.second < 60
    }

    /// The time as a count of seconds since midnight.
    pub open spec fn seconds(self) -> int {
        self.hour as int * 3600 + self.minute as int * 60 + self.second as int
    }

    /// Builds a time of day, rejecting out-of-range components.
    pub fn new(hour: u8, minute: u8, second: u8) -> (r: Option<TimeOfDay>)
        ensures
            match r {
                Some(t) => t == (TimeOfDay { hour, minute, second }) && t.wf(),
                None => !(TimeOfDay { hour, minute, second }).wf(),
            },
    {
        if hour < 24 && minute < 60 && second < 60 {
            Some(TimeOfDay { hour, minute, second })
        } else {
            None
        }
    }

    /// The time as a count of seconds since midnight, executable form.
    pub fn seconds_of_day(&self) -> (r: u32)
        requires
            self.wf(),
        ensures
            r == self.seconds(),
    {
        self.hour as u32 * 3600 + self.minute as u32 * 60 + self.second as u32
    }
}

/// The `HH:MM:SS` rendering of a time of day, as the eight bytes of a log
/// line (without the trailing newline).
pub open spec fn time_line(t: TimeOfDay) -> Seq<u8> {
    two_digits(t.hour as int) + seq![COLON] + two_digits(t.minute as int) + seq![COLON]
        + two_digits(t.second as int)
}

/// Whether a log line is exactly `HH:MM:SS` with in-range components:
/// eight bytes, digits in the digit positions, colons in between, and
/// hour below 24, minute and second below 60.
pub open spec fn valid_time_line(s: Seq<u8>) -> bool {
    &&& s.len() == 8
    &&& is_digit_byte(s[0])
    &&& is_digit_byte(s[1])
    &&& s[2] == COLON
    &&& is_digit_byte(s[3])
    &&& is_digit_byte(s[4])
    &&& s[5] == COLON
    &&& is_digit_byte(s[6])
    &&& is_digit_byte(s[7])
    &&& digit_value(s[0]) * 10 + digit_value(s[1]) < 24
    &&& digit_value(s[3]) * 10 + digit_value(s[4]) < 60
    &&& digit_value(s[6]) * 10 + digit_value(s[7]) < 60
}

/// The time of day a valid log line denotes.
pub open spec fn time_of_line(s: Seq<u8>) -> TimeOfDay {
    TimeOfDay {
        hour: (digit_value(s[0]) * 10 + digit_value(s[1])) as u8,
        minute: (digit_value(s[3]) * 10 + digit_value(s[4])) as u8,
        second: (digit_value(s[6]) * 10 + digit_value(s[7])) as u8,
    }
}

/// A well-formed time of day renders to a valid time line, and that line
/// denotes the same time again.
pub proof fn lemma_time_line_valid(t: TimeOfDay)
    requires
        t.wf(),
    ensures
        valid_time_line(time_line(t)),
        time_of_line(time_line(t)) == t,
{
    let s = time_line(t);
    assert(s[0] == digit_byte(t.hour as int / 10));
    assert(s[1] == digit_byte(t.hour as int % 10));
    assert(s[2] == COLON);
    assert(s[3] == digit_byte(t.minute as int / 10));
    assert(s[4] == digit_byte(t.minute as int % 10));
    assert(s[5] == COLON);
    assert(s[6] == digit_byte(t.second as int / 10));
    assert(s[7] == digit_byte(t.second as int % 10));
}

/// Parses one log line as an `HH:MM:SS` time of day. Returns
/// `MalformedEntry` exactly when the line is not a valid time line.
pub fn parse_time_line(line: &Vec<u8>) -> (r: Result<TimeOfDay, TimerError>)
    ensures
        match r {
            Ok(t) => valid_time_line(line@) && t == time_of_line(line@) && t.wf(),
            Err(e) => !valid_time_line(line@) && e == TimerError::MalformedEntry,
        },
{
    if line.len() != 8 {
        return Err(TimerError::MalformedEntry);
    }
    let b0 = line[0];
    let b1 = line[1];
    let b3 = line[3];
    let b4 = line[4];
    let b6 = line[6];
    let b7 = line[7];
    if line[2] != COLON || line[5] != COLON {
        return Err(TimerError::MalformedEntry);
    }
    if !(DIGIT_ZERO <= b0 && b0 <= DIGIT_ZERO + 9) || !(DIGIT_ZERO <= b1 && b1 <= DIGIT_ZERO + 9)
        || !(DIGIT_ZERO <= b3 && b3 <= DIGIT_ZERO + 9)
        || !(DIGIT_ZERO <= b4 && b4 <= DIGIT_ZERO + 9)
        || !(DIGIT_ZERO <= b6 && b6 <= DIGIT_ZERO + 9)
        || !(DIGIT_ZERO <= b7 && b7 <= DIGIT_ZERO + 9) {
        return Err(TimerError::MalformedEntry);
    }
    let hour: u8 = (b0 - DIGIT_ZERO) * 10 + (b1 - DIGIT_ZERO);
    let minute: u8 = (b3 - DIGIT_ZERO) * 10 + (b4 - DIGIT_ZERO);
    let second: u8 = (b6 - DIGIT_ZERO) * 10 + (b7 - DIGIT_ZERO);
    if hour < 24 && minute < 60 && second < 60 {
        Ok(TimeOfDay { hour, minute, second })
    } else {
        Err(TimerError::MalformedEntry)
    }
}

/// Renders a time of day as its eight-byte `HH:MM:SS` log line. The result
/// is a valid time line that parses back to the same time.
pub fn render_time_line(t: &TimeOfDay) -> (r: Vec<u8>)
    requires
        t.wf(),
    ensures
        r@ == time_line(*t),
        valid_time_line(r@),
        time_of_line(r@) == *t,
{
    let mut v: Vec<u8> = Vec::new();
    v.push(t.hour / 10 + DIGIT_ZERO);
    v.push(t.hour % 10 + DIGIT_ZERO);
    v.push(COLON);
    v.push(t.minute / 10 + DIGIT_ZERO);
    v.push(t.minute % 10 + DIGIT_ZERO);
    v.push(COLON);
    v.push(t.second / 10 + DIGIT_ZERO);
    v.push(t.second % 10 + DIGIT_ZERO);
    proof {
        assert(v@ =~= time_line(*t));
        assert(digit_value(time_line(*t)[0]) == t.hour as int / 10);
        assert(digit_value(time_line(*t)[1]) == t.hour as int % 10);
        assert(time_of_line(v@) == *t);
    }
    v
}

} // verus!
