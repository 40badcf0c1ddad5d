use work_timer::daylog::{encode_event, rehydrate, render_day_file_name, split_lines, CalendarDate};
use work_timer::duration::format_duration;
use work_timer::session::{ToggleOutcome, WorkSession};
use work_timer::time::{parse_time_line, render_time_line, TimeOfDay};
use work_timer::TimerError;

fn at(hour: u8, minute: u8, second: u8) -> TimeOfDay {
    TimeOfDay { hour, minute, second }
}

#[test]
fn fresh_session_is_idle() {
    let session = WorkSession::new();
    assert!(session.active_start.is_none());
    assert_eq!(session.total_worked_secs, 0);
}

#[test]
fn alternation_over_three_events() {
    let mut session = WorkSession::new();
    assert!(session.active_start.is_none());
    session.apply_event(at(9, 0, 0)).unwrap();
    assert!(session.active_start.is_some());
    session.apply_event(at(10, 0, 0)).unwrap();
    assert!(session.active_start.is_none());
    session.apply_event(at(11, 0, 0)).unwrap();
    assert!(session.active_start.is_some());
}

#[test]
fn started_and_stopped_outcomes() {
    let mut session = WorkSession::new();
    assert_eq!(session.apply_event(at(9, 0, 0)), Ok(ToggleOutcome::Started));
    assert_eq!(
        session.apply_event(at(12, 30, 0)),
        Ok(ToggleOutcome::Stopped { elapsed_secs: 3 * 3600 + 30 * 60 })
    );
}

#[test]
fn duration_accumulates_over_two_pairs() {
    let mut session = WorkSession::new();
    session.apply_event(at(9, 0, 0)).unwrap();
    session.apply_event(at(12, 30, 0)).unwrap();
    session.apply_event(at(13, 0, 0)).unwrap();
    session.apply_event(at(14, 15, 30)).unwrap();
    assert_eq!(session.total_worked_secs, (3 * 3600 + 30 * 60) + (3600 + 15 * 60 + 30));
    assert!(session.active_start.is_none());
}

#[test]
fn negative_elapsed_is_invalid_state() {
    let mut session = WorkSession::new();
    session.apply_event(at(10, 0, 0)).unwrap();
    assert_eq!(session.apply_event(at(9, 0, 0)), Err(TimerError::InvalidState));
    // The session is untouched by the rejected event.
    assert_eq!(session.active_start, Some(at(10, 0, 0)));
    assert_eq!(session.total_worked_secs, 0);
}

#[test]
fn negative_elapsed_rejected_on_replay() {
    let content = b"10:00:00\n09:00:00\n".to_vec();
    assert_eq!(rehydrate(&content), Err(TimerError::InvalidState));
}

#[test]
fn zero_length_interval_is_accepted() {
    let mut session = WorkSession::new();
    session.apply_event(at(10, 0, 0)).unwrap();
    assert_eq!(
        session.apply_event(at(10, 0, 0)),
        Ok(ToggleOutcome::Stopped { elapsed_secs: 0 })
    );
    assert_eq!(session.total_worked_secs, 0);
}

#[test]
fn format_duration_examples() {
    assert_eq!(format_duration(125 * 60), b"02:05".to_vec());
    assert_eq!(format_duration(59 * 60), b"00:59".to_vec());
    assert_eq!(format_duration(0), b"00:00".to_vec());
}

#[test]
fn format_duration_ignores_leftover_seconds() {
    // Seconds are tracked for precision but not shown.
    assert_eq!(format_duration(2 * 3600 + 5 * 60 + 59), b"02:05".to_vec());
}

#[test]
fn format_duration_hours_exceed_twenty_four() {
    assert_eq!(format_duration(26 * 3600 + 5 * 60), b"26:05".to_vec());
    assert_eq!(format_duration(123 * 3600), b"123:00".to_vec());
}

#[test]
fn end_to_end_scenario() {
    // Fresh day: an empty log rehydrates to the fresh session.
    let mut log = Vec::new();
    let mut session = rehydrate(&log).unwrap();
    assert!(session.active_start.is_none());
    assert_eq!(session.total_worked_secs, 0);

    // Three toggle events; each accepted event is appended to the log.
    session.apply_event(at(9, 0, 0)).unwrap();
    log.extend_from_slice(&encode_event(&at(9, 0, 0)));
    session.apply_event(at(12, 30, 0)).unwrap();
    log.extend_from_slice(&encode_event(&at(12, 30, 0)));

    // After event 2: 3h30m worked, displayed 03:30; exactly two lines stored.
    assert_eq!(session.total_worked_secs, 3 * 3600 + 30 * 60);
    assert_eq!(format_duration(session.total_worked_secs), b"03:30".to_vec());
    assert_eq!(log, b"09:00:00\n12:30:00\n".to_vec());
    assert_eq!(split_lines(&log).len(), 2);

    // The third event leaves the session working and the log at three lines.
    session.apply_event(at(13, 0, 0)).unwrap();
    log.extend_from_slice(&encode_event(&at(13, 0, 0)));
    assert!(session.active_start.is_some());
    assert_eq!(split_lines(&log).len(), 3);

    // Restart: rehydrating the log reproduces the live session exactly.
    let reopened = rehydrate(&log).unwrap();
    assert_eq!(reopened.active_start, session.active_start);
    assert_eq!(reopened.total_worked_secs, session.total_worked_secs);
}

#[test]
fn round_trip_even_number_of_events() {
    let mut log = Vec::new();
    let mut session = WorkSession::new();
    for event in [at(8, 15, 10), at(9, 45, 20), at(22, 0, 0), at(23, 59, 59)] {
        session.apply_event(event).unwrap();
        log.extend_from_slice(&encode_event(&event));
    }
    let reopened = rehydrate(&log).unwrap();
    assert_eq!(reopened.active_start, session.active_start);
    assert_eq!(reopened.total_worked_secs, session.total_worked_secs);
}

#[test]
fn rehydrate_empty_log() {
    let session = rehydrate(&Vec::new()).unwrap();
    assert!(session.active_start.is_none());
    assert_eq!(session.total_worked_secs, 0);
}

#[test]
fn rehydrate_rejects_malformed_line() {
    assert_eq!(rehydrate(&b"09:00:00\nlunchtime\n".to_vec()), Err(TimerError::MalformedEntry));
    assert_eq!(rehydrate(&b"\n".to_vec()), Err(TimerError::MalformedEntry));
}

#[test]
fn rehydrate_reports_first_failure() {
    // The clock regression on line 2 is hit before the malformed line 3.
    let content = b"10:00:00\n09:00:00\nnonsense\n".to_vec();
    assert_eq!(rehydrate(&content), Err(TimerError::InvalidState));
}

#[test]
fn rehydrate_accepts_log_without_trailing_newline() {
    let session = rehydrate(&b"09:00:00\n10:00:00".to_vec()).unwrap();
    assert_eq!(session.total_worked_secs, 3600);
    assert!(session.active_start.is_none());
}

#[test]
fn parse_time_line_valid() {
    assert_eq!(parse_time_line(&b"00:00:00".to_vec()), Ok(at(0, 0, 0)));
    assert_eq!(parse_time_line(&b"23:59:59".to_vec()), Ok(at(23, 59, 59)));
    assert_eq!(parse_time_line(&b"09:05:30".to_vec()), Ok(at(9, 5, 30)));
}

#[test]
fn parse_time_line_rejects_out_of_range() {
    assert_eq!(parse_time_line(&b"24:00:00".to_vec()), Err(TimerError::MalformedEntry));
    assert_eq!(parse_time_line(&b"12:60:00".to_vec()), Err(TimerError::MalformedEntry));
    assert_eq!(parse_time_line(&b"12:00:60".to_vec()), Err(TimerError::MalformedEntry));
}

#[test]
fn parse_time_line_rejects_bad_shape() {
    assert_eq!(parse_time_line(&b"".to_vec()), Err(TimerError::MalformedEntry));
    assert_eq!(parse_time_line(&b"9:00:00".to_vec()), Err(TimerError::MalformedEntry));
    assert_eq!(parse_time_line(&b"09:00:00 ".to_vec()), Err(TimerError::MalformedEntry));
    assert_eq!(parse_time_line(&b"09-00-00".to_vec()), Err(TimerError::MalformedEntry));
    assert_eq!(parse_time_line(&b"ab:cd:ef".to_vec()), Err(TimerError::MalformedEntry));
}

#[test]
fn render_time_line_zero_pads() {
    assert_eq!(render_time_line(&at(9, 5, 3)), b"09:05:03".to_vec());
    assert_eq!(render_time_line(&at(23, 59, 59)), b"23:59:59".to_vec());
}

#[test]
fn render_then_parse_round_trips() {
    let t = at(7, 41, 26);
    assert_eq!(parse_time_line(&render_time_line(&t)), Ok(t));
}

#[test]
fn encode_event_ends_with_newline() {
    assert_eq!(encode_event(&at(9, 0, 0)), b"09:00:00\n".to_vec());
}

#[test]
fn split_lines_variants() {
    assert_eq!(split_lines(&b"".to_vec()), Vec::<Vec<u8>>::new());
    assert_eq!(split_lines(&b"one\ntwo\n".to_vec()), vec![b"one".to_vec(), b"two".to_vec()]);
    assert_eq!(split_lines(&b"one\ntwo".to_vec()), vec![b"one".to_vec(), b"two".to_vec()]);
    assert_eq!(
        split_lines(&b"one\n\ntwo\n".to_vec()),
        vec![b"one".to_vec(), b"".to_vec(), b"two".to_vec()]
    );
}

#[test]
fn time_of_day_new_checks_ranges() {
    assert_eq!(TimeOfDay::new(23, 59, 59), Some(at(23, 59, 59)));
    assert_eq!(TimeOfDay::new(24, 0, 0), None);
    assert_eq!(TimeOfDay::new(0, 60, 0), None);
    assert_eq!(TimeOfDay::new(0, 0, 60), None);
}

#[test]
fn day_file_name_is_padded_date() {
    let date = CalendarDate { year: 2026, month: 10, day: 12 };
    assert_eq!(render_day_file_name(&date), b"2026-10-12.txt".to_vec());
    let early = CalendarDate { year: 987, month: 1, day: 2 };
    assert_eq!(render_day_file_name(&early), b"0987-01-02.txt".to_vec());
}
