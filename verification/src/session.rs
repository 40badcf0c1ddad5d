//! The toggle state machine: alternating start/stop events and the
//! accumulated worked duration of a day.
use crate::time::TimeOfDay;
use crate::TimerError;
use vstd::prelude::*;

verus! {

/// Seconds in a full day. Every well-formed time of day is strictly below
/// this, so every completed interval is strictly shorter than this.
pub const SECS_PER_DAY: u32 = 86400;

/// The mathematical state of a session: the pending start (as seconds since
/// midnight) while working, and the total worked so far, in seconds.
pub struct SessionModel {
    pub active: Option<int>,
    pub total: int,
}

impl SessionModel {
    /// The state of a fresh session: idle, nothing worked yet.
    pub open spec fn init() -> SessionModel {
        SessionModel { active: None, total: 0 }
    }
}

/// One toggle step. Idle: the event starts work at its time. Working: the
/// event stops work, provided its time is not before the pending start;
/// the elapsed interval is added to the total. `None` means the stop time
/// precedes its paired start (a clock regression), which is invalid.
pub open spec fn toggle_step(pre: SessionModel, t: int) -> Option<SessionModel> {
    match pre.active {
        None => Some(SessionModel { active: Some(t), total: pre.total }),
        Some(s) => if s <= t {
            Some(SessionModel { active: None, total: pre.total + (t - s) })
        } else {
            None
        },
    }
}

/// Replaying a sequence of event times, in order, from a given state.
/// `None` as soon as any step is invalid.
pub open spec fn replay(pre: SessionModel, ts: Seq<int>) -> Option<SessionModel>
    decreases ts.len(),
{
    if ts.len() == 0 {
        Some(pre)
    } else {
        match toggle_step(pre, ts[0]) {
            None => None,
            Some(m) => replay(m, ts.drop_first()),
        }
    }
}

/// The sum of the completed intervals of an even-length sequence of event
/// times: the second minus the first of each consecutive pair.
pub open spec fn paired_total(ts: Seq<int>) -> int
    decreases ts.len(),
{
    if ts.len() < 2 {
        0
    } else {
        (ts[1] - ts[0]) + paired_total(ts.skip(2))
    }
}

proof fn lemma_alternation_from(pre: SessionModel, ts: Seq<int>, m: SessionModel)
    requires
        replay(pre, ts) == Some(m),
    ensures
        (m.active is Some) <==> ((pre.active is Some) != (ts.len() % 2 == 1)),
    decreases ts.len(),
{
    if ts.len() > 0 {
        let stepped = toggle_step(pre, ts[0])->Some_0;
        lemma_alternation_from(stepped, ts.drop_first(), m);
    }
}

/// Alternation invariant: after replaying any sequence of events from the
/// fresh state, the session is working exactly when the number of events is
/// odd, and idle exactly when it is even (in particular for no events).
pub proof fn lemma_alternation(ts: Seq<int>, m: SessionModel)
    requires
        replay(SessionModel::init(), ts) == Some(m),
    ensures
        (m.active is Some) <==> ts.len() % 2 == 1,
{
    lemma_alternation_from(SessionModel::init(), ts, m);
}

proof fn lemma_duration_from(pre: SessionModel, ts: Seq<int>)
    requires
        pre.active is None,
        ts.len() % 2 == 0,
        forall|i: int, j: int| 0 <= i <= j < ts.len() ==> ts[i] <= ts[j],
    ensures
        replay(pre, ts) is Some,
        replay(pre, ts)->Some_0.active is None,
        replay(pre, ts)->Some_0.total == pre.total + paired_total(ts),
    decreases ts.len(),
{
    if ts.len() > 0 {
        assert(ts[0] <= ts[1]);
        let m1 = toggle_step(pre, ts[0])->Some_0;
        let m2 = toggle_step(m1, ts[1])->Some_0;
        let rest = ts.skip(2);
        assert(replay(pre, ts) == replay(m1, ts.drop_first()));
        assert(ts.drop_first()[0] == ts[1]);
        assert(ts.drop_first().len() == ts.len() - 1);
        assert(replay(m1, ts.drop_first()) == replay(m2, ts.drop_first().drop_first()));
        assert(ts.drop_first().drop_first() =~= rest);
        assert forall|i: int, j: int| 0 <= i <= j < rest.len() implies rest[i] <= rest[j] by {
            assert(rest[i] == ts[i + 2]);
            assert(rest[j] == ts[j + 2]);
        }
        lemma_duration_from(m2, rest);
    }
}

/// Duration conservation: replaying an even-length, non-decreasing sequence
/// of event times from the fresh state succeeds, ends idle, and accumulates
/// exactly the sum of the completed intervals, the second minus the first of
/// each consecutive pair.
pub proof fn lemma_duration_conservation(ts: Seq<int>)
    requires
        ts.len() % 2 == 0,
        forall|i: int, j: int| 0 <= i <= j < ts.len() ==> ts[i] <= ts[j],
    ensures
        replay(SessionModel::init(), ts) is Some,
        replay(SessionModel::init(), ts)->Some_0.active is None,
        replay(SessionModel::init(), ts)->Some_0.total == paired_total(ts),
{
    lemma_duration_from(SessionModel::init(), ts);
}

/// What one accepted toggle event did: started a work interval, or stopped
/// one that lasted `elapsed_secs` seconds.
#[derive(Clone, Copy, Debug, PartialEq, Eq, Structural)]
pub enum ToggleOutcome {
    Started,
    Stopped { elapsed_secs: u32 },
}

/// The in-memory session: the pending start while working, and the total
/// worked duration of the day so far, in seconds. Not persisted; it is
/// reconstructed from the day log on every start of the process.
#[derive(Clone, Copy, Debug, PartialEq, Eq, Structural)]
pub struct WorkSession {
    pub active_start: Option<TimeOfDay>,
    pub total_worked_secs: u128,
}

impl WorkSession {
    /// A well-formed session holds a well-formed pending start, if any.
    pub open spec fn wf(self) -> bool {
        match self.active_start {
            Some(t) => t.wf(),
            None => true,
        }
    }

    /// The mathematical state this session stands for.
    pub open spec fn model(self) -> SessionModel {
        SessionModel {
            active: match self.active_start {
                Some(t) => Some(t.seconds()),
                None => None,
            },
            total: self.total_worked_secs as int,
        }
    }

    /// A fresh session: idle, nothing worked yet.
    pub fn new() -> (r: WorkSession)
        ensures
            r.wf(),
            r.model() == SessionModel::init(),
    {
        WorkSession { active_start: None, total_worked_secs: 0 }
    }

    /// Applies one toggle event, live or replayed: starts work when idle,
    /// stops work when working. Returns `InvalidState`, leaving the session
    /// unchanged, exactly when the stop time precedes its paired start.
    pub fn apply_event(&mut self, t: TimeOfDay) -> (r: Result<ToggleOutcome, TimerError>)
        requires
            old(self).wf(),
            t.wf(),
            old(self).total_worked_secs + SECS_PER_DAY <= u128::MAX,
        ensures
            final(self).wf(),
            match r {
                Ok(o) => toggle_step(old(self).model(), t.seconds())
                    == Some(final(self).model()) && match o {
                    ToggleOutcome::Started => old(self).active_start is None
                        && final(self).active_start == Some(t)
                        && final(self).total_worked_secs == old(self).total_worked_secs,
                    ToggleOutcome::Stopped { elapsed_secs } => old(self).active_start is Some
                        && elapsed_secs as int
                            == t.seconds() - old(self).active_start->Some_0.seconds()
                        && final(self).active_start is None,
                },
                Err(e) => e == TimerError::InvalidState
                    && toggle_step(old(self).model(), t.seconds()) is None
                    && *final(self) == *old(self),
            },
    {
        match self.active_start {
            None => {
                self.active_start = Some(t);
                Ok(ToggleOutcome::Started)
            }
            Some(s) => {
                let t_secs = t.seconds_of_day();
                let s_secs = s.seconds_of_day();
                if t_secs < s_secs {
                    return Err(TimerError::InvalidState);
                }
                let elapsed: u32 = t_secs - s_secs;
                self.total_worked_secs = self.total_worked_secs + elapsed as u128;
                self.active_start = None;
                Ok(ToggleOutcome::Stopped { elapsed_secs: elapsed })
            }
        }
    }
}

} // verus!

