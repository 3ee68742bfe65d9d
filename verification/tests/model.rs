use codex_titlebar_meter::locale::AppLocale;
use codex_titlebar_meter::model::{LimitWindow, ResetTime, UsageSnapshot, UsageStatus};

#[test]
fn connecting_has_no_fake_quota() {
    let snapshot = UsageSnapshot::connecting();
    assert!(snapshot.primary.is_none());
    assert!(snapshot.weekly.is_none());
    assert!(snapshot.status.is_some());
}

#[test]
fn default_snapshot_is_connecting() {
    assert_eq!(UsageSnapshot::default(), UsageSnapshot::connecting());
    assert_eq!(
        UsageSnapshot::connecting().status.as_deref(),
        Some(AppLocale::Chinese.status_text(UsageStatus::Connecting))
    );
    assert_eq!(UsageSnapshot::connecting().sampled_at, None);
}

#[test]
fn error_snapshot_carries_its_message_only() {
    let snapshot = UsageSnapshot::error("offline");
    assert!(snapshot.primary.is_none());
    assert!(snapshot.weekly.is_none());
    assert_eq!(snapshot.status.as_deref(), Some("offline"));
    assert_eq!(snapshot.sampled_at, None);
}

#[test]
fn new_window_labels_its_fields_in_chinese() {
    let reset = ResetTime { month: 3, day: 9, hour: 18, minute: 0 };
    let w = LimitWindow::new(300, 78, Some(reset));
    assert_eq!(w.label, "5小时");
    assert_eq!(w.reset_label, "18:00");
    assert_eq!(w.remaining_percent, 78);
    assert_eq!(w.duration_minutes, 300);
    assert_eq!(w.resets_at, Some(reset));
    let weekly = LimitWindow::new(10_080, 94, Some(reset));
    assert_eq!(weekly.label, "1周");
    assert_eq!(weekly.reset_label, "3月9日");
}
