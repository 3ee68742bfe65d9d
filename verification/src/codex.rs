//! What the Codex app-server reports and what the usage reader does with
//! it: quota windows out of a `account/rateLimits/read` reply, the matching
//! of replies to requests, and when to read the quota again.
use vstd::prelude::*;

use chrono::{Datelike, Local, TimeZone, Timelike, Utc};

use crate::model::{LimitWindow, ResetTime, UsageSnapshot};
use crate::text::same_text;

verus! {

/// The `usedPercent` member of a quota window.
#[derive(Clone, Copy, Debug, PartialEq, Eq, Structural)]
pub enum UsedPercent {
    /// Absent, or not a number: counts as nothing used.
    Missing,
    /// A whole number (of any sign).
    Whole(i128),
    /// A number with a fractional part. It carries `round(100 - u)`, where
    /// `u` is the number limited to 0–100; the caller computes it in
    /// floating point.
    Fractional(i64),
}

/// The members of one quota-window object (`primary` or `secondary`) that
/// the reader uses.
#[derive(Clone, Copy, Debug, PartialEq, Eq, Structural)]
pub struct WindowFields {
    pub used_percent: UsedPercent,
    /// `windowDurationMins`, when it is a number that fits `u64`.
    pub window_duration_mins: Option<u64>,
    /// `resetsAt` (seconds since the Unix epoch), when it is a number that
    /// fits `i64`.
    pub resets_at: Option<i64>,
}

/// `result.rateLimits` of a reply: each window is present when the member
/// exists and is an object.
#[derive(Clone, Copy, Debug, PartialEq, Eq, Structural)]
pub struct RateLimits {
    pub primary: Option<WindowFields>,
    pub secondary: Option<WindowFields>,
}

/// One JSON message written by the app-server, as far as the reader looks
/// at it.
#[derive(Clone, Debug, PartialEq, Eq)]
pub struct ServerMessage {
    /// `id`, when it is an unsigned integer.
    pub id: Option<u64>,
    /// `error`, as JSON text, when the member exists.
    pub error: Option<String>,
    /// `method`, when it is a string.
    pub method: Option<String>,
    /// `result.rateLimits`, when it exists.
    pub rate_limits: Option<RateLimits>,
}

/// Why a reply yields no snapshot.
#[derive(Clone, Copy, Debug, PartialEq, Eq, Structural)]
pub enum SnapshotError {
    MissingRateLimits,
    NoActiveWindows,
}

impl SnapshotError {
    /// The text of the error.
    pub fn message(self) -> (r: &'static str)
        ensures
            r@ == match self {
                SnapshotError::MissingRateLimits => "missing result.rateLimits"@,
                SnapshotError::NoActiveWindows => "Codex returned no active quota windows"@,
            },
    {
        match self {
            SnapshotError::MissingRateLimits => "missing result.rateLimits",
            SnapshotError::NoActiveWindows => "Codex returned no active quota windows",
        }
    }
}

/// The percentage left of a window: `100 - used`, with `used` limited to
/// 0–100 (nothing used when the number is missing).
pub open spec fn remaining_of(used: UsedPercent) -> int {
    match used {
        UsedPercent::Missing => 100,
        UsedPercent::Whole(v) => if v <= 0 {
            100
        } else if v >= 100 {
            0
        } else {
            100 - v
        },
        UsedPercent::Fractional(r) => if r <= 0 {
            0
        } else if r >= 100 {
            100
        } else {
            r as int
        },
    }
}

/// The percentage left is always within 0–100, and for a whole used
/// percentage within 0–100 it is the complement of it.
pub proof fn lemma_remaining_complements_used(used: UsedPercent)
    ensures
        0 <= remaining_of(used) <= 100,
        match used {
            UsedPercent::Whole(v) => 0 <= v <= 100 ==> remaining_of(used) + v == 100,
            _ => true,
        },
{
}

/// A valid reading is kept as it is: a whole used percentage `u` in 0–100
/// leaves `100 - u`, and a fractional reading whose rounded remainder `r`
/// is in 0–100 leaves `r`; out-of-range readings are held at the nearest
/// end of 0–100.
pub proof fn lemma_valid_readings_are_kept(used: UsedPercent)
    ensures
        match used {
            UsedPercent::Missing => remaining_of(used) == 100,
            UsedPercent::Whole(u) => {
                &&& 0 <= u <= 100 ==> remaining_of(used) == 100 - u
                &&& u < 0 ==> remaining_of(used) == 100
                &&& u > 100 ==> remaining_of(used) == 0
            },
            UsedPercent::Fractional(r) => {
                &&& 0 <= r <= 100 ==> remaining_of(used) == r
                &&& r < 0 ==> remaining_of(used) == 0
                &&& r > 100 ==> remaining_of(used) == 100
            },
        },
{
}

/// A window's length is the reported number of minutes, or 0 when none is
/// reported.
pub proof fn lemma_length_defaults_to_zero(fields: WindowFields)
    ensures
        fields.window_duration_mins matches Some(d) ==> duration_of(fields) == d,
        fields.window_duration_mins is None ==> duration_of(fields) == 0,
{
}

/// More used never leaves more: the percentage left does not grow with a
/// whole used percentage, nor shrink with a fractional reading's rounded
/// remainder.
pub proof fn lemma_remaining_is_monotone(used: UsedPercent, more: UsedPercent)
    ensures
        (used matches UsedPercent::Whole(u) && more matches UsedPercent::Whole(v) && u <= v)
            ==> remaining_of(used) >= remaining_of(more),
        (used matches UsedPercent::Fractional(r) && more matches UsedPercent::Fractional(q) && q
            <= r) ==> remaining_of(used) >= remaining_of(more),
        used == UsedPercent::Missing ==> remaining_of(used) >= remaining_of(more),
{
}

/// Two windows read from fields that differ at most in `usedPercent`, and
/// that got the same reset time, differ at most in the percentage left:
/// they have the same labels, and the one with more used has no more left.
pub proof fn lemma_windows_differ_only_in_percentage(
    fields: WindowFields,
    other: WindowFields,
    window: LimitWindow,
    other_window: LimitWindow,
)
    requires
        is_window_of(fields, window),
        is_window_of(other, other_window),
        fields.window_duration_mins == other.window_duration_mins,
        fields.resets_at == other.resets_at,
        window.resets_at == other_window.resets_at,
    ensures
        window.label@ == other_window.label@,
        window.reset_label@ == other_window.reset_label@,
        (fields.used_percent matches UsedPercent::Whole(u) && other.used_percent matches UsedPercent::Whole(v) && u <= v)
            ==> window.remaining_percent >= other_window.remaining_percent,
{
    lemma_remaining_is_monotone(fields.used_percent, other.used_percent);
}

/// The window length in minutes (0 when not reported).
pub open spec fn duration_of(fields: WindowFields) -> u64 {
    match fields.window_duration_mins {
        Some(d) => d,
        None => 0,
    }
}

/// The earliest instant (seconds since the Unix epoch) that chrono can
/// represent: -262143-01-01 00:00:00 UTC.
pub const EARLIEST_TIMESTAMP: i64 = -8_334_601_228_800;

/// The latest whole second (since the Unix epoch) that chrono can
/// represent: 262142-12-31 23:59:59 UTC.
pub const LATEST_TIMESTAMP: i64 = 8_210_266_876_799;

/// `window` is what the reader makes of `fields`: the reported length and
/// remaining percentage, Chinese labels for them, and for a reported reset
/// instant its local time when chrono can represent the instant, none
/// (shown as `--`) when it cannot. (Which local time
/// depends on the machine's time zone; that it is one within a day of UTC
/// is stated.)
pub open spec fn is_window_of(fields: WindowFields, window: LimitWindow) -> bool {
    &&& window.duration_minutes == duration_of(fields)
    &&& window.remaining_percent as int == remaining_of(fields.used_percent)
    &&& window.is_valid()
    &&& window.has_chinese_labels()
    &&& match fields.resets_at {
        None => window.resets_at is None,
        Some(timestamp) => {
            &&& window.resets_at is Some <==> EARLIEST_TIMESTAMP <= timestamp <= LATEST_TIMESTAMP
            &&& window.resets_at matches Some(t) ==> t.is_local_time_of(timestamp as int)
        },
    }
}

/// An optional window is what the reader makes of optional fields: absent
/// exactly when the fields are absent.
pub open spec fn is_window_option_of(fields: Option<WindowFields>, window: Option<LimitWindow>) -> bool {
    match fields {
        None => window is None,
        Some(f) => window matches Some(w) && is_window_of(f, w),
    }
}

/// chrono: `Local.timestamp_opt(timestamp, 0).single()`, then the
/// `month`, `day`, `hour` and `minute` of the local date-time.
///
/// Claimed: chrono documents `timestamp_opt` to give a single date-time for
/// every timestamp it can represent (from `DateTime::<Utc>::MIN_UTC` to
/// `MAX_UTC`) and none for the others; the local date-time is the UTC one shifted by the local
/// offset, a `FixedOffset`, which chrono keeps strictly within a day either
/// way; month, day, hour and minute are documented as 1–12, 1–31, 0–23 and
/// 0–59. Which offset applies depends on the machine's time zone and is not
/// stated. chrono panics when the time-zone database of the machine is
/// unusable; no input rules that out.
#[verifier::external_body]
fn local_reset_time(timestamp: i64) -> (r: Option<ResetTime>)
    ensures
        r is Some <==> EARLIEST_TIMESTAMP <= timestamp <= LATEST_TIMESTAMP,
        r matches Some(t) ==> t.is_valid() && t.is_local_time_of(timestamp as int),
{
    match Local.timestamp_opt(timestamp, 0).single() {
        Some(dt) => Some(ResetTime { month: dt.month(), day: dt.day(), hour: dt.hour(), minute: dt.minute() }),
        None => None,
    }
}

/// chrono: `Utc::now().timestamp()`, the current time in seconds since the
/// Unix epoch. Claimed: only that it is an instant from the epoch on that
/// chrono can represent (chrono panics on a clock set before 1970).
#[verifier::external_body]
fn now_timestamp() -> (r: i64)
    ensures
        0 <= r <= LATEST_TIMESTAMP,
{
    Utc::now().timestamp()
}

/// The percentage left of a window, from its `usedPercent`.
pub fn remaining_percent(used: UsedPercent) -> (r: u8)
    ensures
        r as int == remaining_of(used),
        r <= 100,
{
    match used {
        UsedPercent::Missing => 100,
        UsedPercent::Whole(v) => if v <= 0 {
            100
        } else if v >= 100 {
            0
        } else {
            (100 - v) as u8
        },
        UsedPercent::Fractional(r) => if r <= 0 {
            0
        } else if r >= 100 {
            100
        } else {
            r as u8
        },
    }
}

/// The window described by `fields`, which resets at `resets_at` (the local
/// time of `fields.resets_at`).
pub fn window_from_fields(fields: &WindowFields, resets_at: Option<ResetTime>) -> (w: LimitWindow)
    requires
        resets_at matches Some(t) ==> t.is_valid(),
    ensures
        w.duration_minutes == duration_of(*fields),
        w.remaining_percent as int == remaining_of(fields.used_percent),
        w.resets_at == resets_at,
        w.is_valid(),
        w.has_chinese_labels(),
{
    let duration = match fields.window_duration_mins {
        Some(d) => d,
        None => 0,
    };
    LimitWindow::new(duration, remaining_percent(fields.used_percent), resets_at)
}

/// The window that `value` (a `primary` or `secondary` member) describes;
/// none when the member is absent or not an object.
pub fn parse_window(value: Option<&WindowFields>) -> (r: Option<LimitWindow>)
    ensures
        is_window_option_of(
            match value {
                Some(f) => Some(*f),
                None => None,
            },
            r,
        ),
{
    match value {
        None => None,
        Some(fields) => {
            let reset = match fields.resets_at {
                Some(timestamp) => local_reset_time(timestamp),
                None => None,
            };
            Some(window_from_fields(fields, reset))
        },
    }
}

/// The snapshot that a `account/rateLimits/read` reply describes, sampled
/// now: an error when the reply has no `result.rateLimits`, or when it
/// reports no window at all.
pub fn parse_snapshot(response: &ServerMessage) -> (r: Result<UsageSnapshot, SnapshotError>)
    ensures
        match response.rate_limits {
            None => r == Err::<UsageSnapshot, SnapshotError>(SnapshotError::MissingRateLimits),
            Some(limits) => if limits.primary is None && limits.secondary is None {
                r == Err::<UsageSnapshot, SnapshotError>(SnapshotError::NoActiveWindows)
            } else {
                &&& r matches Ok(s)
                &&& is_window_option_of(limits.primary, s.primary)
                &&& is_window_option_of(limits.secondary, s.weekly)
                &&& s.status is None
                &&& s.sampled_at matches Some(t) && 0 <= t <= LATEST_TIMESTAMP
            },
        },
{
    let limits = match &response.rate_limits {
        Some(limits) => limits,
        None => return Err(SnapshotError::MissingRateLimits),
    };
    let primary = parse_window(limits.primary.as_ref());
    let weekly = parse_window(limits.secondary.as_ref());
    if primary.is_none() && weekly.is_none() {
        return Err(SnapshotError::NoActiveWindows);
    }
    Ok(UsageSnapshot { primary, weekly, status: None, sampled_at: Some(now_timestamp()) })
}

/// How a message relates to the request that is waited for.
#[derive(Clone, Debug, PartialEq, Eq)]
pub enum ResponseCheck {
    /// Not the reply to that request (another id, or a notification).
    Unrelated,
    /// The reply, reporting an error (its JSON text).
    Failed(String),
    /// The reply.
    Accepted,
}

/// Whether `message` answers the request `id`, and how.
pub fn check_response(message: &ServerMessage, id: u64) -> (r: ResponseCheck)
    ensures
        message.id != Some(id) ==> r == ResponseCheck::Unrelated,
        message.id == Some(id) ==> match message.error {
            Some(e) => r matches ResponseCheck::Failed(t) && t@ == e@,
            None => r == ResponseCheck::Accepted,
        },
{
    match message.id {
        Some(found) => if found != id {
            return ResponseCheck::Unrelated;
        },
        None => return ResponseCheck::Unrelated,
    }
    match &message.error {
        Some(e) => ResponseCheck::Failed(String::from_str(e.as_str())),
        None => ResponseCheck::Accepted,
    }
}

/// The id of the `initialize` request that opens a session.
pub const INITIALIZE_REQUEST_ID: u64 = 1;

/// The id of the first `account/rateLimits/read` request of a session.
pub const FIRST_READ_REQUEST_ID: u64 = 2;

/// How long the reader goes without reading the quota, in milliseconds.
pub const REFRESH_INTERVAL_MS: u64 = 60_000;

/// The notification that the quota changed.
pub open spec fn rate_limits_updated() -> Seq<char> {
    "account/rateLimits/updated"@
}

/// What happened while the reader waited on an open session.
#[derive(Clone, Debug, PartialEq, Eq)]
pub enum SessionEvent {
    /// Codex is no longer active.
    CodexInactive,
    /// The app-server wrote a message.
    Line(ServerMessage),
    /// The app-server wrote a line that is not JSON.
    MalformedLine,
    /// Nothing arrived within the wait.
    Quiet,
    /// The app-server closed its output.
    OutputClosed,
}

/// Why a session ends in failure.
#[derive(Clone, Copy, Debug, PartialEq, Eq, Structural)]
pub enum SessionFailure {
    InvalidJson,
    OutputClosed,
}

/// What the reader does next in a session.
#[derive(Clone, Copy, Debug, PartialEq, Eq, Structural)]
pub enum SessionAction {
    /// End the session normally.
    Finish,
    /// End the session with this failure.
    Fail(SessionFailure),
    /// Keep waiting.
    Wait,
    /// Read the quota again with a request of this id.
    Refresh(u64),
}

/// An open app-server session: the id of its latest request.
#[derive(Clone, Copy, Debug, PartialEq, Eq, Structural)]
pub struct Session {
    pub last_request_id: u64,
}

/// Whether `event` asks for a new reading by itself (the quota-changed
/// notification).
pub open spec fn announces_update(event: SessionEvent) -> bool {
    event matches SessionEvent::Line(m) && m.method matches Some(name) && name@
        == rate_limits_updated()
}

/// The reader's decision on `event`, `elapsed_ms` after the latest reading.
pub open spec fn session_step(session: Session, event: SessionEvent, elapsed_ms: nat) -> (Session, SessionAction) {
    match event {
        SessionEvent::CodexInactive => (session, SessionAction::Finish),
        SessionEvent::MalformedLine => (session, SessionAction::Fail(SessionFailure::InvalidJson)),
        SessionEvent::OutputClosed => (session, SessionAction::Fail(SessionFailure::OutputClosed)),
        _ => if announces_update(event) || elapsed_ms >= REFRESH_INTERVAL_MS {
            let id = (session.last_request_id + 1) as u64;
            (Session { last_request_id: id }, SessionAction::Refresh(id))
        } else {
            (session, SessionAction::Wait)
        },
    }
}

impl Session {
    /// A session whose `initialize` and first read have been sent.
    pub fn new() -> (s: Session)
        ensures
            s.last_request_id == FIRST_READ_REQUEST_ID,
    {
        Session { last_request_id: FIRST_READ_REQUEST_ID }
    }

    /// Decides what to do on `event`, `elapsed_ms` after the latest reading:
    /// finish when Codex is gone; fail on a line that is not JSON or on a
    /// closed output; read again, with the next request id, on the
    /// quota-changed notification or once a minute has passed; else wait.
    pub fn on_event(&mut self, event: &SessionEvent, elapsed_ms: u64) -> (action: SessionAction)
        requires
            old(self).last_request_id < u64::MAX,
        ensures
            (*final(self), action) == session_step(*old(self), *event, elapsed_ms as nat),
    {
        match event {
            SessionEvent::CodexInactive => SessionAction::Finish,
            SessionEvent::MalformedLine => SessionAction::Fail(SessionFailure::InvalidJson),
            SessionEvent::OutputClosed => SessionAction::Fail(SessionFailure::OutputClosed),
            _ => {
                let announced = match event {
                    SessionEvent::Line(message) => match &message.method {
                        Some(name) => same_text(name.as_str(), "account/rateLimits/updated"),
                        None => false,
                    },
                    _ => false,
                };
                if announced || elapsed_ms >= REFRESH_INTERVAL_MS {
                    self.last_request_id = self.last_request_id + 1;
                    SessionAction::Refresh(self.last_request_id)
                } else {
                    SessionAction::Wait
                }
            },
        }
    }
}

/// What a session does on each kind of event, whatever its state: it
/// finishes when Codex is gone and fails on a line that is not JSON or on
/// a closed output, without reading; on any other event it reads again,
/// with the id after its latest one, exactly when the event is the
/// quota-changed notice or at least a refresh interval has passed since
/// the latest reading, and otherwise waits with its state unchanged.
pub proof fn lemma_session_reads_on_notice_or_interval(session: Session, event: SessionEvent, elapsed_ms: nat)
    requires
        session.last_request_id < u64::MAX,
    ensures
        event == SessionEvent::CodexInactive ==> session_step(session, event, elapsed_ms) == (
            session,
            SessionAction::Finish,
        ),
        event == SessionEvent::MalformedLine ==> session_step(session, event, elapsed_ms) == (
            session,
            SessionAction::Fail(SessionFailure::InvalidJson),
        ),
        event == SessionEvent::OutputClosed ==> session_step(session, event, elapsed_ms) == (
            session,
            SessionAction::Fail(SessionFailure::OutputClosed),
        ),
        (event is Line || event is Quiet) && (elapsed_ms >= REFRESH_INTERVAL_MS || (
        event matches SessionEvent::Line(m) && m.method matches Some(name) && name@
            == "account/rateLimits/updated"@)) ==> session_step(session, event, elapsed_ms) == (
            Session { last_request_id: (session.last_request_id + 1) as u64 },
            SessionAction::Refresh((session.last_request_id + 1) as u64),
        ),
        (event is Line || event is Quiet) && elapsed_ms < REFRESH_INTERVAL_MS && !(
        event matches SessionEvent::Line(m) && m.method matches Some(name) && name@
            == "account/rateLimits/updated"@) ==> session_step(session, event, elapsed_ms) == (
            session,
            SessionAction::Wait,
        ),
{
}

/// Once Codex is no longer active, a session finishes on that event
/// without reading the quota again; it reads only on other events.
pub proof fn lemma_no_reading_once_codex_inactive(session: Session, event: SessionEvent, elapsed_ms: nat)
    ensures
        event == SessionEvent::CodexInactive ==> session_step(session, event, elapsed_ms) == (
            session,
            SessionAction::Finish,
        ),
        session_step(session, event, elapsed_ms).1 is Refresh ==> event != SessionEvent::CodexInactive,
{
}

/// The ids of the requests that a session sends on `events` (each paired
/// with the milliseconds since the latest reading), in order.
pub open spec fn refresh_ids(session: Session, events: Seq<(SessionEvent, nat)>) -> Seq<u64>
    decreases events.len(),
{
    if events.len() == 0 {
        Seq::empty()
    } else {
        let (next, action) = session_step(session, events[0].0, events[0].1);
        let rest = refresh_ids(next, events.drop_first());
        match action {
            SessionAction::Refresh(id) => seq![id] + rest,
            _ => rest,
        }
    }
}

/// Each request of a session takes the next id: the `i`-th refresh
/// request (from 0) carries the session's latest id plus `i + 1`, so the
/// ids grow strictly and none is used twice.
pub proof fn lemma_request_ids_increase(session: Session, events: Seq<(SessionEvent, nat)>)
    requires
        session.last_request_id + events.len() < u64::MAX,
    ensures
        refresh_ids(session, events).len() <= events.len(),
        forall|i: int|
            0 <= i < refresh_ids(session, events).len() ==> refresh_ids(session, events)[i]
                == session.last_request_id + 1 + i,
        forall|i: int, j: int|
            0 <= i < j < refresh_ids(session, events).len() ==> refresh_ids(session, events)[i]
                < refresh_ids(session, events)[j],
    decreases events.len(),
{
    if events.len() > 0 {
        let (next, action) = session_step(session, events[0].0, events[0].1);
        lemma_request_ids_increase(next, events.drop_first());
        let rest = refresh_ids(next, events.drop_first());
        match action {
            SessionAction::Refresh(id) => {
                let all = seq![id] + rest;
                assert(refresh_ids(session, events) == all);
                assert(next.last_request_id == session.last_request_id + 1);
                assert forall|i: int| 0 <= i < all.len() implies all[i] == session.last_request_id
                    + 1 + i by {
                    if i > 0 {
                        assert(all[i] == rest[i - 1]);
                    }
                }
            },
            _ => {
                assert(next == session);
            },
        }
    }
}

/// The ids of all requests of a session, in the order they are written:
/// `initialize`, the first read, then every refresh on `events`.
pub open spec fn session_request_ids(events: Seq<(SessionEvent, nat)>) -> Seq<u64> {
    seq![INITIALIZE_REQUEST_ID, FIRST_READ_REQUEST_ID] + refresh_ids(
        Session { last_request_id: FIRST_READ_REQUEST_ID },
        events,
    )
}

/// The `k`-th request of a session (counting from 1) carries the id `k`:
/// the one at position `i` (counting from 0) carries `i + 1`.
pub proof fn lemma_kth_request_has_id_k(events: Seq<(SessionEvent, nat)>)
    requires
        events.len() + 3 < u64::MAX,
    ensures
        forall|i: int|
            0 <= i < session_request_ids(events).len() ==> session_request_ids(events)[i] == i
                + 1,
{
    let start = Session { last_request_id: FIRST_READ_REQUEST_ID };
    lemma_request_ids_increase(start, events);
    let ids = session_request_ids(events);
    let rest = refresh_ids(start, events);
    assert forall|i: int| 0 <= i < ids.len() implies ids[i] == i + 1 by {
        if i > 1 {
            assert(ids[i] == rest[i - 2]);
        }
    }
}

} // verus!
