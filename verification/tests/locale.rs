use chrono::{Datelike, Local, TimeZone, Timelike};
use codex_titlebar_meter::locale::{codex_locale_override, parse_locale_override, plural, AppLocale};
use codex_titlebar_meter::model::{LimitWindow, ResetTime, UsageStatus};

fn reset_at(timestamp: i64) -> Option<ResetTime> {
    Local.timestamp_opt(timestamp, 0).single().map(|t| ResetTime {
        month: t.month(),
        day: t.day(),
        hour: t.hour(),
        minute: t.minute(),
    })
}

fn window(minutes: u64) -> LimitWindow {
    LimitWindow::new(minutes, 94, reset_at(1_800_500_000))
}

fn fixed_window(minutes: u64, percent: u8, reset: Option<ResetTime>) -> LimitWindow {
    LimitWindow::new(minutes, percent, reset)
}

#[test]
fn parses_codex_locale_override() {
    assert_eq!(
        parse_locale_override("localeOverride = \"zh-CN\""),
        Some("zh-CN".to_string())
    );
    assert_eq!(parse_locale_override("# localeOverride = \"en\""), None);
    assert_eq!(parse_locale_override("theme = \"dark\""), None);
}

#[test]
fn formats_metrics_in_chinese_and_english() {
    let weekly = window(10_080);
    assert!(
        AppLocale::Chinese
            .metric_text(&weekly)
            .starts_with("1周  94%")
    );
    assert!(
        AppLocale::English
            .metric_text(&weekly)
            .starts_with("1 week  94%")
    );
}

#[test]
fn override_accepts_single_quotes_and_surrounding_space() {
    assert_eq!(
        parse_locale_override("   localeOverride='en-US'  "),
        Some("en-US".to_string())
    );
    assert_eq!(
        parse_locale_override("localeOverride = \"  zh-TW \" # note"),
        Some("zh-TW".to_string())
    );
}

#[test]
fn override_rejects_malformed_values() {
    assert_eq!(parse_locale_override("localeOverride = zh-CN"), None);
    assert_eq!(parse_locale_override("localeOverride = \"zh-CN"), None);
    assert_eq!(parse_locale_override("localeOverride = \"   \""), None);
    assert_eq!(parse_locale_override("localeOverride = \"zh'"), None);
    assert_eq!(parse_locale_override("localeOverride"), None);
    assert_eq!(parse_locale_override("localeoverride = \"zh\""), None);
    assert_eq!(parse_locale_override(""), None);
}

#[test]
fn override_value_stops_at_the_matching_quote() {
    assert_eq!(
        parse_locale_override("localeOverride = 'zh\"CN' x'"),
        Some("zh\"CN".to_string())
    );
}

#[test]
fn config_text_uses_first_override_line() {
    let config = "model = \"gpt\"\r\n# localeOverride = \"en\"\r\nlocaleOverride = \"zh-CN\"\r\nlocaleOverride = \"en\"\n";
    assert_eq!(codex_locale_override(config), Some("zh-CN".to_string()));
    assert_eq!(codex_locale_override("localeOverride = 'en'"), Some("en".to_string()));
    assert_eq!(codex_locale_override("a = 1\nb = 2\n"), None);
    assert_eq!(codex_locale_override(""), None);
}

#[test]
fn language_tags_starting_with_zh_are_chinese() {
    assert_eq!(AppLocale::from_language_tag("zh-CN"), AppLocale::Chinese);
    assert_eq!(AppLocale::from_language_tag("  ZH-tw "), AppLocale::Chinese);
    assert_eq!(AppLocale::from_language_tag("Zh"), AppLocale::Chinese);
    assert_eq!(AppLocale::from_language_tag("en-US"), AppLocale::English);
    assert_eq!(AppLocale::from_language_tag("z"), AppLocale::English);
    assert_eq!(AppLocale::from_language_tag(""), AppLocale::English);
    assert_eq!(AppLocale::from_language_tag("xzh"), AppLocale::English);
}

#[test]
fn detection_prefers_codex_override_over_system_locale() {
    let chinese_config = "localeOverride = \"zh-CN\"\n";
    assert_eq!(AppLocale::detect(Some(chinese_config), Some("en-US")), AppLocale::Chinese);
    assert_eq!(AppLocale::detect(Some(chinese_config), None), AppLocale::Chinese);
    assert_eq!(AppLocale::detect(Some("localeOverride = 'en'"), Some("zh-CN")), AppLocale::English);
    assert_eq!(AppLocale::detect(Some("theme = 'dark'"), Some("zh-CN")), AppLocale::Chinese);
    assert_eq!(AppLocale::detect(None, Some("zh-Hans")), AppLocale::Chinese);
    assert_eq!(AppLocale::detect(None, Some("de-DE")), AppLocale::English);
    assert_eq!(AppLocale::detect(None, None), AppLocale::English);
}

#[test]
fn duration_labels_name_weeks_days_hours_and_other_lengths() {
    assert_eq!(AppLocale::Chinese.duration_label(10_080), "1周");
    assert_eq!(AppLocale::English.duration_label(10_080), "1 week");
    assert_eq!(AppLocale::Chinese.duration_label(1_440), "1天");
    assert_eq!(AppLocale::English.duration_label(1_440), "1 day");
    assert_eq!(AppLocale::English.duration_label(20_160), "14 days");
    assert_eq!(AppLocale::Chinese.duration_label(300), "5小时");
    assert_eq!(AppLocale::English.duration_label(60), "1 hour");
    assert_eq!(AppLocale::English.duration_label(300), "5 hours");
    assert_eq!(AppLocale::English.duration_label(1_500), "25 hours");
    assert_eq!(AppLocale::Chinese.duration_label(45), "当前");
    assert_eq!(AppLocale::English.duration_label(0), "Current");
    assert_eq!(AppLocale::English.duration_label(90), "Current");
}

#[test]
fn plural_adds_s_except_for_one() {
    assert_eq!(plural(1, "day"), "1 day");
    assert_eq!(plural(0, "day"), "0 days");
    assert_eq!(plural(12, "hour"), "12 hours");
}

#[test]
fn reset_labels_show_date_for_long_windows_and_time_otherwise() {
    let reset = Some(ResetTime { month: 1, day: 5, hour: 7, minute: 3 });
    assert_eq!(AppLocale::Chinese.reset_label(&fixed_window(10_080, 50, reset)), "1月5日");
    assert_eq!(AppLocale::English.reset_label(&fixed_window(10_080, 50, reset)), "Jan 5");
    assert_eq!(AppLocale::English.reset_label(&fixed_window(1_440, 50, reset)), "Jan 5");
    assert_eq!(AppLocale::Chinese.reset_label(&fixed_window(300, 50, reset)), "07:03");
    assert_eq!(AppLocale::English.reset_label(&fixed_window(300, 50, reset)), "07:03");
    let late = Some(ResetTime { month: 12, day: 31, hour: 23, minute: 59 });
    assert_eq!(AppLocale::English.reset_label(&fixed_window(10_080, 50, late)), "Dec 31");
    assert_eq!(AppLocale::English.reset_label(&fixed_window(300, 50, late)), "23:59");
    assert_eq!(AppLocale::English.reset_label(&fixed_window(300, 50, None)), "--");
    assert_eq!(AppLocale::Chinese.reset_label(&fixed_window(10_080, 50, None)), "--");
}

#[test]
fn metric_text_joins_label_percent_and_reset() {
    let reset = Some(ResetTime { month: 7, day: 14, hour: 9, minute: 30 });
    assert_eq!(AppLocale::English.metric_text(&fixed_window(10_080, 96, reset)), "1 week  96%  Jul 14");
    assert_eq!(AppLocale::Chinese.metric_text(&fixed_window(10_080, 96, reset)), "1周  96%  7月14日");
    assert_eq!(AppLocale::English.metric_text(&fixed_window(300, 0, reset)), "5 hours  0%  09:30");
    assert_eq!(AppLocale::Chinese.metric_text(&fixed_window(300, 100, None)), "5小时  100%  --");
}

#[test]
fn chinese_metric_text_is_made_of_window_labels() {
    let w = window(300);
    let text = AppLocale::Chinese.metric_text(&w);
    assert_eq!(text, format!("{}  {}%  {}", w.label, w.remaining_percent, w.reset_label));
}

#[test]
fn status_texts_in_both_languages() {
    assert_eq!(AppLocale::Chinese.status_text(UsageStatus::Connecting), "正在读取 Codex 用量…");
    assert_eq!(AppLocale::Chinese.status_text(UsageStatus::Retrying), "暂时无法读取用量，正在重试…");
    assert_eq!(AppLocale::English.status_text(UsageStatus::Connecting), "Reading Codex usage…");
    assert_eq!(AppLocale::English.status_text(UsageStatus::Retrying), "Usage unavailable. Retrying…");
}
