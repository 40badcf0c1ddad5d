//! The day log: the append-only, newline-delimited byte representation of a
//! day's toggle events, and rehydration of a session from those bytes.
//!
//! The log is the single source of truth: the in-memory session is never
//! persisted, so every restart reconstructs it purely from the log. The
//! functions here pin down that representation — which bytes one accepted
//! event appends, how a log's bytes divide into lines, and what rehydrating
//! from them must yield.
use crate::session::toggle_step;
use crate::session::replay;
use crate::session::SessionModel;
use crate::session::WorkSession;
use crate::time::two_digits;
use crate::time::DIGIT_ZERO;
use crate::time::parse_time_line;
use crate::time::render_time_line;
use crate::time::lemma_time_line_valid;
use crate::time::time_line;
use crate::time::time_of_line;
use crate::time::valid_time_line;
use crate::time::TimeOfDay;
use crate::TimerError;
use vstd::prelude::*;

verus! {

/// ASCII line feed, the separator between log lines.
pub const NEWLINE: u8 = 10;

/// Splitting a byte sequence at newlines, carrying the line gathered so
/// far: a newline ends the gathered line, any other byte extends it, and a
/// nonempty gathered line at the end of the bytes counts as a final line.
pub open spec fn split_from(s: Seq<u8>, cur: Seq<u8>) -> Seq<Seq<u8>>
    decreases s.len(),
{
    if s.len() == 0 {
        if cur.len() == 0 {
            Seq::empty()
        } else {
            seq![cur]
        }
    } else if s[0] == NEWLINE {
        seq![cur] + split_from(s.drop_first(), Seq::empty())
    } else {
        split_from(s.drop_first(), cur.push(s[0]))
    }
}

/// The lines of a byte sequence: the maximal runs between newlines. A
/// trailing newline ends the last line rather than opening an empty one.
pub open spec fn lines_of(s: Seq<u8>) -> Seq<Seq<u8>> {
    split_from(s, Seq::empty())
}

/// The event times of a sequence, as seconds since midnight.
pub open spec fn event_seconds(ts: Seq<TimeOfDay>) -> Seq<int> {
    ts.map_values(|t: TimeOfDay| t.seconds())
}

/// The `HH:MM:SS` lines a sequence of events renders to, one per event.
pub open spec fn rendered_lines(ts: Seq<TimeOfDay>) -> Seq<Seq<u8>> {
    ts.map_values(|t: TimeOfDay| time_line(t))
}

/// The full bytes of a day log holding the given events: one `HH:MM:SS`
/// line per event, each ended by a newline.
pub open spec fn log_bytes(ts: Seq<TimeOfDay>) -> Seq<u8>
    decreases ts.len(),
{
    if ts.len() == 0 {
        Seq::empty()
    } else {
        time_line(ts[0]) + seq![NEWLINE] + log_bytes(ts.drop_first())
    }
}

/// The bytes appended to the day log for one accepted event: the event's
/// eight-byte `HH:MM:SS` line ended by a newline. The append must be
/// flushed durably before the next event is accepted; performing the write
/// is the shell's part, the bytes written are fixed here.
pub fn encode_event(t: &TimeOfDay) -> (r: Vec<u8>)
    requires
        t.wf(),
    ensures
        r@ == time_line(*t) + seq![NEWLINE],
{
    let mut v = render_time_line(t);
    v.push(NEWLINE);
    proof {
        assert(v@ =~= time_line(*t) + seq![NEWLINE]);
    }
    v
}

/// Splits a day log's bytes into its lines.
pub fn split_lines(content: &Vec<u8>) -> (r: Vec<Vec<u8>>)
    ensures
        r.deep_view() == lines_of(content@),
{
    let mut out: Vec<Vec<u8>> = Vec::new();
    let mut cur: Vec<u8> = Vec::new();
    let mut i: usize = 0;
    proof {
        assert(content@.skip(0) =~= content@);
        assert(out.deep_view() =~= Seq::<Seq<u8>>::empty());
        assert(out.deep_view() + split_from(content@.skip(0), cur@) =~= split_from(
            content@,
            Seq::empty(),
        ));
    }
    while i < content.len()
        invariant
            i <= content@.len(),
            out.deep_view() + split_from(content@.skip(i as int), cur@) == lines_of(content@),
        decreases content@.len() - i,
    {
        proof {
            assert(content@.skip(i as int)[0] == content@[i as int]);
            assert(content@.skip(i as int).drop_first() =~= content@.skip(i as int + 1));
        }
        let ghost prev_out = out.deep_view();
        let ghost prev_cur = cur@;
        let b = content[i];
        if b == NEWLINE {
            out.push(cur);
            cur = Vec::new();
            proof {
                assert(out.deep_view() =~~= prev_out.push(prev_cur));
                assert(out.deep_view() + split_from(content@.skip(i as int + 1), cur@)
                    =~= prev_out + (seq![prev_cur] + split_from(
                    content@.skip(i as int + 1),
                    Seq::empty(),
                )));
            }
        } else {
            cur.push(b);
        }
        i += 1;
    }
    proof {
        assert(content@.skip(i as int) =~= Seq::<u8>::empty());
    }
    if cur.len() > 0 {
        let ghost prev_out = out.deep_view();
        let ghost prev_cur = cur@;
        out.push(cur);
        proof {
            assert(out.deep_view() =~~= prev_out.push(prev_cur));
            assert(out.deep_view() =~= prev_out + seq![prev_cur]);
        }
    } else {
        proof {
            assert(out.deep_view() + Seq::<Seq<u8>>::empty() =~= out.deep_view());
        }
    }
    out
}

/// Replaying a day log's lines in order from a given state: each line must
/// parse as `HH:MM:SS` (`MalformedEntry` otherwise), and each parsed time
/// is applied as a toggle step (`InvalidState` on a clock regression). The
/// first failing line decides the error; nothing after it is considered.
pub open spec fn replay_lines(pre: SessionModel, lines: Seq<Seq<u8>>) -> Result<
    SessionModel,
    TimerError,
>
    decreases lines.len(),
{
    if lines.len() == 0 {
        Ok(pre)
    } else if !valid_time_line(lines[0]) {
        Err(TimerError::MalformedEntry)
    } else {
        match toggle_step(pre, time_of_line(lines[0]).seconds()) {
            None => Err(TimerError::InvalidState),
            Some(m) => replay_lines(m, lines.drop_first()),
        }
    }
}

/// What rehydrating from a day log's bytes must yield: the result of
/// replaying its lines, in file order, from the fresh state.
pub open spec fn rehydrate_outcome(content: Seq<u8>) -> Result<SessionModel, TimerError> {
    replay_lines(SessionModel::init(), lines_of(content))
}

/// Rehydrates a session from a day log's bytes, exactly as if each stored
/// event had just occurred live. Fails with `MalformedEntry` on the first
/// line that is not an `HH:MM:SS` time, and with `InvalidState` on the
/// first stop time that precedes its paired start.
pub fn rehydrate(content: &Vec<u8>) -> (r: Result<WorkSession, TimerError>)
    ensures
        match r {
            Ok(s) => s.wf() && rehydrate_outcome(content@) == Ok::<SessionModel, TimerError>(
                s.model(),
            ),
            Err(e) => rehydrate_outcome(content@) == Err::<SessionModel, TimerError>(e),
        },
{
    let lines = split_lines(content);
    let ghost all_lines = lines_of(content@);
    let mut session = WorkSession::new();
    let mut i: usize = 0;
    proof {
        assert(all_lines.skip(0) =~= all_lines);
    }
    while i < lines.len()
        invariant
            i <= lines.len(),
            all_lines == lines_of(content@),
            lines.deep_view() == all_lines,
            session.wf(),
            session.total_worked_secs <= 86399 * (i as int),
            replay_lines(SessionModel::init(), all_lines) == replay_lines(
                session.model(),
                all_lines.skip(i as int),
            ),
        decreases lines.len() - i,
    {
        proof {
            assert(all_lines.skip(i as int)[0] == all_lines[i as int]);
            assert(all_lines[i as int] == lines@[i as int].deep_view());
            assert(lines@[i as int].deep_view() =~= lines@[i as int]@);
            assert(all_lines.skip(i as int).drop_first() =~= all_lines.skip(i as int + 1));
        }
        let t = match parse_time_line(&lines[i]) {
            Ok(t) => t,
            Err(e) => {
                proof {
                    assert(!valid_time_line(all_lines.skip(i as int)[0]));
                    assert(replay_lines(session.model(), all_lines.skip(i as int))
                        == Err::<SessionModel, TimerError>(TimerError::MalformedEntry));
                }
                return Err(e);
            },
        };
        let ghost pre_model = session.model();
        match session.apply_event(t) {
            Ok(_) => {},
            Err(e) => {
                proof {
                    assert(valid_time_line(all_lines.skip(i as int)[0]));
                    assert(time_of_line(all_lines.skip(i as int)[0]) == t);
                    assert(toggle_step(session.model(), t.seconds()) is None);
                    assert(replay_lines(session.model(), all_lines.skip(i as int))
                        == Err::<SessionModel, TimerError>(TimerError::InvalidState));
                }
                return Err(e);
            },
        }
        proof {
            assert(valid_time_line(all_lines.skip(i as int)[0]));
            assert(time_of_line(all_lines.skip(i as int)[0]) == t);
            assert(toggle_step(pre_model, t.seconds()) == Some(session.model()));
            assert(replay_lines(pre_model, all_lines.skip(i as int)) == replay_lines(
                session.model(),
                all_lines.skip(i as int + 1),
            ));
        }
        i += 1;
    }
    proof {
        assert(all_lines.skip(i as int) =~= Seq::<Seq<u8>>::empty());
    }
    Ok(session)
}

proof fn lemma_valid_line_no_newline(s: Seq<u8>)
    requires
        valid_time_line(s),
    ensures
        forall|i: int| 0 <= i < s.len() ==> s[i] != NEWLINE,
{
}

proof fn lemma_split_one_line(line: Seq<u8>, rest: Seq<u8>, cur: Seq<u8>)
    requires
        forall|i: int| 0 <= i < line.len() ==> line[i] != NEWLINE,
    ensures
        split_from(line + seq![NEWLINE] + rest, cur) == seq![cur + line] + split_from(
            rest,
            Seq::empty(),
        ),
    decreases line.len(),
{
    let s = line + seq![NEWLINE] + rest;
    if line.len() == 0 {
        assert(s[0] == NEWLINE);
        assert(s.drop_first() =~= rest);
        assert(cur + line =~= cur);
    } else {
        assert(s[0] == line[0]);
        assert(s.drop_first() =~= line.drop_first() + seq![NEWLINE] + rest);
        lemma_split_one_line(line.drop_first(), rest, cur.push(line[0]));
        assert(cur.push(line[0]) + line.drop_first() =~= cur + line);
    }
}

proof fn lemma_log_lines(ts: Seq<TimeOfDay>)
    requires
        forall|i: int| 0 <= i < ts.len() ==> ts[i].wf(),
    ensures
        lines_of(log_bytes(ts)) == rendered_lines(ts),
    decreases ts.len(),
{
    if ts.len() == 0 {
        assert(lines_of(log_bytes(ts)) =~= rendered_lines(ts));
    } else {
        let first = time_line(ts[0]);
        let rest = ts.drop_first();
        lemma_time_line_valid(ts[0]);
        lemma_valid_line_no_newline(first);
        lemma_split_one_line(first, log_bytes(rest), Seq::empty());
        assert(Seq::empty() + first =~= first);
        assert(forall|i: int| 0 <= i < rest.len() ==> rest[i] == ts[i + 1]);
        lemma_log_lines(rest);
        assert(lines_of(log_bytes(ts)) =~= rendered_lines(ts));
    }
}

proof fn lemma_replay_rendered(pre: SessionModel, ts: Seq<TimeOfDay>)
    requires
        forall|i: int| 0 <= i < ts.len() ==> ts[i].wf(),
    ensures
        match replay(pre, event_seconds(ts)) {
            Some(m) => replay_lines(pre, rendered_lines(ts)) == Ok::<SessionModel, TimerError>(m),
            None => replay_lines(pre, rendered_lines(ts)) == Err::<SessionModel, TimerError>(
                TimerError::InvalidState,
            ),
        },
    decreases ts.len(),
{
    if ts.len() > 0 {
        let rest = ts.drop_first();
        lemma_time_line_valid(ts[0]);
        assert(rendered_lines(ts)[0] == time_line(ts[0]));
        assert(event_seconds(ts)[0] == ts[0].seconds());
        assert(forall|i: int| 0 <= i < rest.len() ==> rest[i] == ts[i + 1]);
        match toggle_step(pre, ts[0].seconds()) {
            None => {},
            Some(m) => {
                lemma_replay_rendered(m, rest);
                assert(rendered_lines(ts).drop_first() =~= rendered_lines(rest));
                assert(event_seconds(ts).drop_first() =~= event_seconds(rest));
            },
        }
    }
}

/// Round trip: rehydrating from the day log written for a sequence of
/// events yields exactly what applying those events live yields — the same
/// session state when every step is accepted, and `InvalidState` when some
/// stop time precedes its paired start.
pub proof fn lemma_log_round_trip(ts: Seq<TimeOfDay>)
    requires
        forall|i: int| 0 <= i < ts.len() ==> ts[i].wf(),
    ensures
        match replay(SessionModel::init(), event_seconds(ts)) {
            Some(m) => rehydrate_outcome(log_bytes(ts)) == Ok::<SessionModel, TimerError>(m),
            None => rehydrate_outcome(log_bytes(ts)) == Err::<SessionModel, TimerError>(
                TimerError::InvalidState,
            ),
        },
{
    lemma_log_lines(ts);
    lemma_replay_rendered(SessionModel::init(), ts);
}

/// ASCII `'-'`, the separator inside a day log's file name.
pub const HYPHEN: u8 = 45;

/// ASCII `'.'`.
pub const DOT: u8 = 46;

/// ASCII `'t'`.
pub const LOWER_T: u8 = 116;

/// ASCII `'x'`.
pub const LOWER_X: u8 = 120;

/// The calendar date identifying one day's log. The log never stores it:
/// the date lives only in the log file's name.
#[derive(Clone, Copy, Debug, PartialEq, Eq, Structural)]
pub struct CalendarDate {
    pub year: u16,
    pub month: u8,
    pub day: u8,
}

impl CalendarDate {
    /// A date that fits the `YYYY-MM-DD` rendering: a four-digit year and
    /// in-range month and day.
    pub open spec fn wf(self) -> bool {
        self.year <= 9999 && 1 <= self.month && self.month <= 12 && 1 <= self.day && self.day
            <= 31
    }
}

/// A number below 10000 rendered as exactly four decimal digits.
pub open spec fn four_digits(n: int) -> Seq<u8> {
    two_digits(n / 100) + two_digits(n % 100)
}

/// The file name of a date's day log: `YYYY-MM-DD.txt`, zero-padded.
pub open spec fn day_file_name(d: CalendarDate) -> Seq<u8> {
    four_digits(d.year as int) + seq![HYPHEN] + two_digits(d.month as int) + seq![HYPHEN]
        + two_digits(d.day as int) + seq![DOT, LOWER_T, LOWER_X, LOWER_T]
}

/// Renders the file name a date's day log is stored under: `YYYY-MM-DD.txt`.
pub fn render_day_file_name(d: &CalendarDate) -> (r: Vec<u8>)
    requires
        d.wf(),
    ensures
        r@ == day_file_name(*d),
{
    let hi = d.year / 100;
    let lo = d.year % 100;
    let mut v: Vec<u8> = Vec::new();
    v.push((hi / 10) as u8 + DIGIT_ZERO);
    v.push((hi % 10) as u8 + DIGIT_ZERO);
    v.push((lo / 10) as u8 + DIGIT_ZERO);
    v.push((lo % 10) as u8 + DIGIT_ZERO);
    v.push(HYPHEN);
    v.push(d.month / 10 + DIGIT_ZERO);
    v.push(d.month % 10 + DIGIT_ZERO);
    v.push(HYPHEN);
    v.push(d.day / 10 + DIGIT_ZERO);
    v.push(d.day % 10 + DIGIT_ZERO);
    v.push(DOT);
    v.push(LOWER_T);
    v.push(LOWER_X);
    v.push(LOWER_T);
    proof {
        assert(v@ =~= day_file_name(*d));
    }
    v
}

} // verus!
