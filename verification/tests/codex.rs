use codex_titlebar_meter::codex::{
    check_response, parse_snapshot, parse_window, remaining_percent, window_from_fields, RateLimits,
    ResponseCheck, ServerMessage, Session, SessionAction, SessionEvent, SessionFailure,
    SnapshotError, UsedPercent, WindowFields, FIRST_READ_REQUEST_ID, INITIALIZE_REQUEST_ID,
    REFRESH_INTERVAL_MS,
};
use chrono::{DateTime, Datelike, TimeZone, Timelike, Utc};
use codex_titlebar_meter::codex::{EARLIEST_TIMESTAMP, LATEST_TIMESTAMP};
use codex_titlebar_meter::model::ResetTime;

fn fields(used: UsedPercent, minutes: Option<u64>, resets_at: Option<i64>) -> WindowFields {
    WindowFields { used_percent: used, window_duration_mins: minutes, resets_at }
}

fn reply(primary: Option<WindowFields>, secondary: Option<WindowFields>) -> ServerMessage {
    ServerMessage {
        id: Some(2),
        error: None,
        method: None,
        rate_limits: Some(RateLimits { primary, secondary }),
    }
}

fn line(id: Option<u64>, error: Option<&str>, method: Option<&str>) -> ServerMessage {
    ServerMessage {
        id,
        error: error.map(|e| e.to_string()),
        method: method.map(|m| m.to_string()),
        rate_limits: None,
    }
}

#[test]
fn parses_remaining_percent_and_labels() {
    let response = reply(
        Some(fields(UsedPercent::Whole(22), Some(300), Some(1_800_000_000))),
        Some(fields(UsedPercent::Whole(6), Some(10080), Some(1_800_500_000))),
    );
    let parsed = parse_snapshot(&response).expect("snapshot");
    assert_eq!(parsed.primary.as_ref().unwrap().remaining_percent, 78);
    assert_eq!(parsed.primary.as_ref().unwrap().label, "5小时");
    assert_eq!(parsed.weekly.as_ref().unwrap().remaining_percent, 94);
    assert_eq!(parsed.weekly.as_ref().unwrap().label, "1周");
}

#[test]
fn single_weekly_window_is_reported_without_a_fake_primary() {
    let response = reply(None, Some(fields(UsedPercent::Whole(4), Some(10080), None)));
    let parsed = parse_snapshot(&response).expect("snapshot");
    assert!(parsed.primary.is_none());
    let weekly = parsed.weekly.unwrap();
    assert_eq!(weekly.remaining_percent, 96);
    assert_eq!(weekly.label, "1周");
    assert_eq!(weekly.reset_label, "--");
    assert!(parsed.status.is_none());
    assert!(parsed.sampled_at.is_some());
}

#[test]
fn reply_without_rate_limits_is_an_error() {
    let response = line(Some(2), None, None);
    assert_eq!(parse_snapshot(&response), Err(SnapshotError::MissingRateLimits));
    assert_eq!(SnapshotError::MissingRateLimits.message(), "missing result.rateLimits");
}

#[test]
fn reply_without_windows_is_an_error() {
    assert_eq!(parse_snapshot(&reply(None, None)), Err(SnapshotError::NoActiveWindows));
    assert_eq!(
        SnapshotError::NoActiveWindows.message(),
        "Codex returned no active quota windows"
    );
}

#[test]
fn used_percent_is_limited_to_the_valid_range() {
    assert_eq!(remaining_percent(UsedPercent::Missing), 100);
    assert_eq!(remaining_percent(UsedPercent::Whole(0)), 100);
    assert_eq!(remaining_percent(UsedPercent::Whole(100)), 0);
    assert_eq!(remaining_percent(UsedPercent::Whole(150)), 0);
    assert_eq!(remaining_percent(UsedPercent::Whole(-5)), 100);
    assert_eq!(remaining_percent(UsedPercent::Whole(37)), 63);
    assert_eq!(remaining_percent(UsedPercent::Fractional(78)), 78);
    assert_eq!(remaining_percent(UsedPercent::Fractional(-3)), 0);
    assert_eq!(remaining_percent(UsedPercent::Fractional(250)), 100);
}

#[test]
fn missing_members_give_defaults() {
    let w = parse_window(Some(&fields(UsedPercent::Missing, None, None))).unwrap();
    assert_eq!(w.remaining_percent, 100);
    assert_eq!(w.duration_minutes, 0);
    assert_eq!(w.label, "当前");
    assert_eq!(w.reset_label, "--");
    assert!(parse_window(None).is_none());
}

#[test]
fn reset_instant_becomes_a_valid_local_time() {
    let w = parse_window(Some(&fields(UsedPercent::Whole(10), Some(300), Some(1_800_000_000)))).unwrap();
    let reset = w.resets_at.expect("a local time");
    assert!((1..=12).contains(&reset.month));
    assert!((1..=31).contains(&reset.day));
    assert!(reset.hour < 24);
    assert!(reset.minute < 60);
    assert_eq!(w.reset_label, format!("{:02}:{:02}", reset.hour, reset.minute));
}

#[test]
fn window_from_fields_uses_the_given_reset_time() {
    let reset = ResetTime { month: 2, day: 28, hour: 0, minute: 5 };
    let w = window_from_fields(&fields(UsedPercent::Whole(22), Some(300), Some(1)), Some(reset));
    assert_eq!(w.remaining_percent, 78);
    assert_eq!(w.label, "5小时");
    assert_eq!(w.reset_label, "00:05");
    let d = window_from_fields(&fields(UsedPercent::Whole(1), Some(2880), Some(1)), Some(reset));
    assert_eq!(d.label, "2天");
    assert_eq!(d.reset_label, "2月28日");
}

#[test]
fn responses_are_matched_by_id() {
    assert_eq!(check_response(&line(Some(3), None, None), 3), ResponseCheck::Accepted);
    assert_eq!(check_response(&line(Some(4), None, None), 3), ResponseCheck::Unrelated);
    assert_eq!(
        check_response(&line(None, None, Some("account/rateLimits/updated")), 3),
        ResponseCheck::Unrelated
    );
    assert_eq!(
        check_response(&line(Some(3), Some("{\"code\":-1}"), None), 3),
        ResponseCheck::Failed("{\"code\":-1}".to_string())
    );
    assert_eq!(
        check_response(&line(Some(9), Some("{\"code\":-1}"), None), 3),
        ResponseCheck::Unrelated
    );
}

#[test]
fn session_reads_again_on_update_notice_or_after_a_minute() {
    assert_eq!(INITIALIZE_REQUEST_ID, 1);
    let mut session = Session::new();
    assert_eq!(session.last_request_id, FIRST_READ_REQUEST_ID);
    assert_eq!(session.on_event(&SessionEvent::Quiet, 1_000), SessionAction::Wait);
    let notice = SessionEvent::Line(line(None, None, Some("account/rateLimits/updated")));
    assert_eq!(session.on_event(&notice, 1_000), SessionAction::Refresh(3));
    let other = SessionEvent::Line(line(None, None, Some("thread/started")));
    assert_eq!(session.on_event(&other, 10), SessionAction::Wait);
    assert_eq!(session.on_event(&SessionEvent::Quiet, REFRESH_INTERVAL_MS - 1), SessionAction::Wait);
    assert_eq!(session.on_event(&SessionEvent::Quiet, REFRESH_INTERVAL_MS), SessionAction::Refresh(4));
    assert_eq!(session.on_event(&other, 120_000), SessionAction::Refresh(5));
    assert_eq!(session.last_request_id, 5);
}

#[test]
fn session_ends_on_closed_codex_and_fails_on_bad_output() {
    let mut session = Session::new();
    assert_eq!(session.on_event(&SessionEvent::CodexInactive, 0), SessionAction::Finish);
    assert_eq!(
        session.on_event(&SessionEvent::MalformedLine, 0),
        SessionAction::Fail(SessionFailure::InvalidJson)
    );
    assert_eq!(
        session.on_event(&SessionEvent::OutputClosed, 999_999),
        SessionAction::Fail(SessionFailure::OutputClosed)
    );
    assert_eq!(session.last_request_id, FIRST_READ_REQUEST_ID);
}

#[test]
fn representable_range_is_that_of_chrono() {
    assert_eq!(DateTime::<Utc>::MIN_UTC.timestamp(), EARLIEST_TIMESTAMP);
    assert_eq!(DateTime::<Utc>::MAX_UTC.timestamp(), LATEST_TIMESTAMP);
}

#[test]
fn reset_instants_in_range_always_give_a_reset_time() {
    for timestamp in [EARLIEST_TIMESTAMP, -1, 0, 1_800_000_000, LATEST_TIMESTAMP] {
        let w = parse_window(Some(&fields(UsedPercent::Whole(1), Some(10080), Some(timestamp)))).unwrap();
        assert!(w.resets_at.is_some(), "{timestamp}");
        assert_ne!(w.reset_label, "--");
    }
    let beyond = parse_window(Some(&fields(UsedPercent::Whole(1), Some(10080), Some(i64::MAX)))).unwrap();
    assert!(beyond.resets_at.is_none());
    assert_eq!(beyond.reset_label, "--");
}

#[test]
fn reset_time_is_the_instant_read_on_a_local_clock() {
    let timestamp: i64 = 1_800_000_000;
    let w = parse_window(Some(&fields(UsedPercent::Whole(1), Some(300), Some(timestamp)))).unwrap();
    let reset = w.resets_at.unwrap();
    let offset = chrono::Local.timestamp_opt(timestamp, 0).single().unwrap().offset().local_minus_utc();
    let local = DateTime::from_timestamp(timestamp + i64::from(offset), 0).unwrap();
    assert_eq!((reset.month, reset.day, reset.hour, reset.minute), (local.month(), local.day(), local.hour(), local.minute()));
}

#[test]
fn more_used_leaves_no_more_and_keeps_the_labels() {
    let less = parse_window(Some(&fields(UsedPercent::Whole(20), Some(300), None))).unwrap();
    let more = parse_window(Some(&fields(UsedPercent::Whole(35), Some(300), None))).unwrap();
    assert!(less.remaining_percent >= more.remaining_percent);
    assert_eq!(less.label, more.label);
    assert_eq!(less.reset_label, more.reset_label);
}

#[test]
fn snapshot_is_sampled_at_a_time_after_the_epoch() {
    let response = reply(Some(fields(UsedPercent::Whole(50), Some(300), None)), None);
    let sampled = parse_snapshot(&response).unwrap().sampled_at.unwrap();
    assert!(sampled >= 1_700_000_000);
    assert!(sampled <= LATEST_TIMESTAMP);
}

#[test]
fn reset_instants_just_outside_chrono_range_show_no_reset() {
    for timestamp in [EARLIEST_TIMESTAMP - 1, LATEST_TIMESTAMP + 1, i64::MIN] {
        let w = parse_window(Some(&fields(UsedPercent::Whole(1), Some(60), Some(timestamp)))).unwrap();
        assert!(w.resets_at.is_none());
        assert_eq!(w.reset_label, "--");
    }
}
