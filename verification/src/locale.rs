//! The language of the title bar: how it is chosen (Codex's
//! `localeOverride` setting, else the system locale) and the texts rendered
//! in it.
use vstd::prelude::*;

use crate::model::{reset_is_valid, LimitWindow, ResetTime, UsageStatus};
use crate::text::{
    decimal, digits_value, find_char, find_char_in, is_white_space, lemma_decimal_denotes,
    lemma_find_char_after, lemma_find_char_bounds, lemma_trim_around, lemma_trim_idempotent, lemma_trim_keeps_first_two, lemma_two_digits_denote, push_char, push_decimal, push_two_digits, same_text,
    trim, trim_text, two_digits,
};

verus! {

/// The two languages of the title bar.
#[derive(Clone, Copy, Debug, PartialEq, Eq, Structural)]
pub enum AppLocale {
    Chinese,
    English,
}

/// ASCII lower case of one character (`char::to_ascii_lowercase`).
pub open spec fn ascii_lower(c: char) -> char {
    if 'A' <= c && c <= 'Z' {
        ((c as u32) + 32) as char
    } else {
        c
    }
}

/// The language named by a locale tag: Chinese for tags that, once trimmed
/// and lower-cased, start with `zh`; English for every other tag.
pub open spec fn language_of(tag: Seq<char>) -> AppLocale {
    let t = trim(tag);
    if t.len() >= 2 && ascii_lower(t[0]) == 'z' && ascii_lower(t[1]) == 'h' {
        AppLocale::Chinese
    } else {
        AppLocale::English
    }
}

/// The value of a `localeOverride = "…"` line of Codex's `config.toml`:
/// the trimmed text between the opening quote (`"` or `'`) and the next
/// occurrence of the same quote, when it is not empty. Comment lines and
/// lines with another key give nothing.
pub open spec fn parse_override(line: Seq<char>) -> Option<Seq<char>> {
    let t = trim(line);
    if t.len() > 0 && t[0] == '#' {
        None
    } else {
        match find_char(t, '=') {
            None => None,
            Some(k) => {
                let key = trim(t.take(k));
                let value = trim(t.skip(k + 1));
                if key != "localeOverride"@ || value.len() == 0 || (value[0] != '"' && value[0]
                    != '\'') {
                    None
                } else {
                    let rest = value.drop_first();
                    match find_char(rest, value[0]) {
                        None => None,
                        Some(e) => {
                            let locale = trim(rest.take(e));
                            if locale.len() == 0 {
                                None
                            } else {
                                Some(locale)
                            }
                        },
                    }
                }
            },
        }
    }
}

/// The override of the first line of `contents` (lines end at `\n`) that
/// has one.
pub open spec fn first_override(contents: Seq<char>) -> Option<Seq<char>>
    decreases contents.len(),
{
    match find_char(contents, '\n') {
        None => parse_override(contents),
        Some(k) => {
            proof {
                lemma_find_char_bounds(contents, '\n');
            }
            match parse_override(contents.take(k)) {
                Some(v) => Some(v),
                None => first_override(contents.skip(k + 1)),
            }
        },
    }
}

/// The language chosen from Codex's configuration text (when it could be
/// read) and the system locale tag (when it could be read): the override
/// wins; without one, the system tag; without that, English.
pub open spec fn detected_language(config: Option<Seq<char>>, system_tag: Option<Seq<char>>) -> AppLocale {
    let overridden = match config {
        Some(c) => first_override(c),
        None => None,
    };
    match overridden {
        Some(tag) => language_of(tag),
        None => match system_tag {
            Some(tag) => language_of(tag),
            None => AppLocale::English,
        },
    }
}

/// `value` and `unit`, with an `s` unless `value` is 1.
pub open spec fn plural_of(value: nat, unit: Seq<char>) -> Seq<char> {
    decimal(value) + seq![' '] + unit + if value == 1 {
        Seq::<char>::empty()
    } else {
        seq!['s']
    }
}

/// The name of a window of `minutes`: one week, whole days, whole hours,
/// or "current".
pub open spec fn duration_label_of(locale: AppLocale, minutes: nat) -> Seq<char> {
    if minutes == 10080 {
        match locale {
            AppLocale::Chinese => "1周"@,
            AppLocale::English => "1 week"@,
        }
    } else if minutes >= 1440 && minutes % 1440 == 0 {
        match locale {
            AppLocale::Chinese => decimal(minutes / 1440) + "天"@,
            AppLocale::English => plural_of(minutes / 1440, "day"@),
        }
    } else if minutes >= 60 && minutes % 60 == 0 {
        match locale {
            AppLocale::Chinese => decimal(minutes / 60) + "小时"@,
            AppLocale::English => plural_of(minutes / 60, "hour"@),
        }
    } else {
        match locale {
            AppLocale::Chinese => "当前"@,
            AppLocale::English => "Current"@,
        }
    }
}

/// The English abbreviation of a month (what chrono's `%b` prints).
pub open spec fn month_abbrev(month: nat) -> Seq<char> {
    if month == 1 { "Jan"@ }
    else if month == 2 { "Feb"@ }
    else if month == 3 { "Mar"@ }
    else if month == 4 { "Apr"@ }
    else if month == 5 { "May"@ }
    else if month == 6 { "Jun"@ }
    else if month == 7 { "Jul"@ }
    else if month == 8 { "Aug"@ }
    else if month == 9 { "Sep"@ }
    else if month == 10 { "Oct"@ }
    else if month == 11 { "Nov"@ }
    else { "Dec"@ }
}

/// When a window resets: `--` when unknown; the date for windows of a day
/// or more; the time of day (`hh:mm`) otherwise.
pub open spec fn reset_label_of(locale: AppLocale, duration: nat, resets_at: Option<ResetTime>) -> Seq<char> {
    match resets_at {
        None => "--"@,
        Some(t) => if duration >= 1440 {
            match locale {
                AppLocale::Chinese => decimal(t.month as nat) + "月"@ + decimal(t.day as nat) + "日"@,
                AppLocale::English => month_abbrev(t.month as nat) + " "@ + decimal(t.day as nat),
            }
        } else {
            two_digits(t.hour as nat) + ":"@ + two_digits(t.minute as nat)
        },
    }
}

/// The title-bar text of one window: its name, the remaining percentage and
/// when it resets, separated by two spaces.
pub open spec fn metric_text_of(locale: AppLocale, window: LimitWindow) -> Seq<char> {
    duration_label_of(locale, window.duration_minutes as nat) + "  "@ + decimal(
        window.remaining_percent as nat,
    ) + "%  "@ + reset_label_of(locale, window.duration_minutes as nat, window.resets_at)
}

/// The status message shown while no quota is known.
pub open spec fn status_text_of(locale: AppLocale, status: UsageStatus) -> Seq<char> {
    match (locale, status) {
        (AppLocale::Chinese, UsageStatus::Connecting) => "正在读取 Codex 用量…"@,
        (AppLocale::Chinese, UsageStatus::Retrying) => "暂时无法读取用量，正在重试…"@,
        (AppLocale::English, UsageStatus::Connecting) => "Reading Codex usage…"@,
        (AppLocale::English, UsageStatus::Retrying) => "Usage unavailable. Retrying…"@,
    }
}

/// An override read from Codex's configuration decides the language,
/// whatever the system locale is.
pub proof fn lemma_override_beats_system_locale(
    config: Seq<char>,
    system_tag: Option<Seq<char>>,
    other_tag: Option<Seq<char>>,
)
    requires
        first_override(config) is Some,
    ensures
        detected_language(Some(config), system_tag) == detected_language(Some(config), other_tag),
        detected_language(Some(config), system_tag) == language_of(first_override(config)->0),
{
}

/// `lines` joined into one text, with `\n` between them.
pub open spec fn join_lines(lines: Seq<Seq<char>>) -> Seq<char>
    decreases lines.len(),
{
    if lines.len() == 0 {
        Seq::empty()
    } else if lines.len() == 1 {
        lines[0]
    } else {
        lines[0] + seq!['\n'] + join_lines(lines.drop_first())
    }
}

/// In `a + "\n" + b`, where `a` has no line break, the first line break is
/// the one after `a`.
proof fn lemma_first_break_after_line(a: Seq<char>, b: Seq<char>)
    requires
        forall|j: int| 0 <= j < a.len() ==> a[j] != '\n',
    ensures
        find_char(a + seq!['\n'] + b, '\n') == Some(a.len() as int),
        (a + seq!['\n'] + b).take(a.len() as int) == a,
        (a + seq!['\n'] + b).skip(a.len() as int + 1) == b,
{
    let s = a + seq!['\n'] + b;
    lemma_find_char_bounds(s, '\n');
    assert(s[a.len() as int] == '\n');
    assert(s.take(a.len() as int) =~= a);
    assert(s.skip(a.len() as int + 1) =~= b);
}

/// The override of a text is that of its first line that has one, whatever
/// lines (blank ones included) come before it: when line `i` of the text
/// sets the locale and no earlier line does, that is the override; when no
/// line does, there is none.
pub proof fn lemma_first_line_with_override_decides(lines: Seq<Seq<char>>, i: int)
    requires
        forall|k: int, j: int| 0 <= k < lines.len() && 0 <= j < lines[k].len() ==> lines[k][j] != '\n',
        0 <= i < lines.len(),
        forall|k: int| 0 <= k < i ==> (#[trigger] parse_override(lines[k])) is None,
    ensures
        parse_override(lines[i]) is Some ==> first_override(join_lines(lines)) == parse_override(lines[i]),
        (forall|k: int| 0 <= k < lines.len() ==> (#[trigger] parse_override(lines[k])) is None)
            ==> first_override(join_lines(lines)) is None,
    decreases lines.len(),
{
    if lines.len() == 1 {
        lemma_find_char_bounds(lines[0], '\n');
    } else {
        let rest = lines.drop_first();
        lemma_first_break_after_line(lines[0], join_lines(rest));
        assert(join_lines(lines) == lines[0] + seq!['\n'] + join_lines(rest));
        if i > 0 {
            lemma_first_line_with_override_decides(rest, i - 1);
            assert(rest[i - 1] == lines[i]);
        } else {
            if forall|k: int| 0 <= k < lines.len() ==> (#[trigger] parse_override(lines[k])) is None {
                lemma_first_line_with_override_decides(rest, 0);
                assert forall|k: int| 0 <= k < rest.len() implies (#[trigger] parse_override(rest[k])) is None by {
                    assert(rest[k] == lines[k + 1]);
                }
            }
        }
        if i > 0 && (forall|k: int| 0 <= k < lines.len() ==> (#[trigger] parse_override(lines[k])) is None) {
            assert forall|k: int| 0 <= k < rest.len() implies (#[trigger] parse_override(rest[k])) is None by {
                assert(rest[k] == lines[k + 1]);
            }
        }
    }
}

/// The English month abbreviations are those of chrono's `%b`: three
/// letters, the start of the month's English name, and a different one for
/// each month.
pub proof fn lemma_month_abbreviations()
    ensures
        forall|m: nat| 1 <= m <= 12 ==> (#[trigger] month_abbrev(m)).len() == 3,
        forall|m: nat, n: nat| 1 <= m < n <= 12 ==> #[trigger] month_abbrev(m) != #[trigger] month_abbrev(n),
        month_abbrev(1).is_prefix_of("January"@),
        month_abbrev(2).is_prefix_of("February"@),
        month_abbrev(3).is_prefix_of("March"@),
        month_abbrev(4).is_prefix_of("April"@),
        month_abbrev(5).is_prefix_of("May"@),
        month_abbrev(6).is_prefix_of("June"@),
        month_abbrev(7).is_prefix_of("July"@),
        month_abbrev(8).is_prefix_of("August"@),
        month_abbrev(9).is_prefix_of("September"@),
        month_abbrev(10).is_prefix_of("October"@),
        month_abbrev(11).is_prefix_of("November"@),
        month_abbrev(12).is_prefix_of("December"@),
{
    reveal_strlit("Jan");
    reveal_strlit("Feb");
    reveal_strlit("Mar");
    reveal_strlit("Apr");
    reveal_strlit("May");
    reveal_strlit("Jun");
    reveal_strlit("Jul");
    reveal_strlit("Aug");
    reveal_strlit("Sep");
    reveal_strlit("Oct");
    reveal_strlit("Nov");
    reveal_strlit("Dec");
    reveal_strlit("January");
    reveal_strlit("February");
    reveal_strlit("March");
    reveal_strlit("April");
    reveal_strlit("June");
    reveal_strlit("July");
    reveal_strlit("August");
    reveal_strlit("September");
    reveal_strlit("October");
    reveal_strlit("November");
    reveal_strlit("December");
    assert(month_abbrev(1) =~= "January"@.subrange(0, 3));
    assert(month_abbrev(2) =~= "February"@.subrange(0, 3));
    assert(month_abbrev(3) =~= "March"@.subrange(0, 3));
    assert(month_abbrev(4) =~= "April"@.subrange(0, 3));
    assert(month_abbrev(5) =~= "May"@.subrange(0, 3));
    assert(month_abbrev(6) =~= "June"@.subrange(0, 3));
    assert(month_abbrev(7) =~= "July"@.subrange(0, 3));
    assert(month_abbrev(8) =~= "August"@.subrange(0, 3));
    assert(month_abbrev(9) =~= "September"@.subrange(0, 3));
    assert(month_abbrev(10) =~= "October"@.subrange(0, 3));
    assert(month_abbrev(11) =~= "November"@.subrange(0, 3));
    assert(month_abbrev(12) =~= "December"@.subrange(0, 3));
    assert forall|m: nat, n: nat| 1 <= m < n <= 12 implies #[trigger] month_abbrev(m)
        != #[trigger] month_abbrev(n) by {
        if month_abbrev(m) == month_abbrev(n) {
            assert(month_abbrev(m)[0] == month_abbrev(n)[0]);
            assert(month_abbrev(m)[1] == month_abbrev(n)[1]);
            assert(month_abbrev(m)[2] == month_abbrev(n)[2]);
        }
    }
}

/// A locale tag names Chinese exactly when, after any leading white space,
/// it starts with `zh` in either case (`zh-CN`, ` ZH-tw`, `Zh`), whatever
/// follows; every other tag names English.
pub proof fn lemma_language_of_tag(pre: Seq<char>, c0: char, c1: char, rest: Seq<char>)
    requires
        forall|j: int| 0 <= j < pre.len() ==> is_white_space(#[trigger] pre[j]),
        !is_white_space(c0),
    ensures
        language_of(pre + seq![c0, c1] + rest) == if (c0 == 'z' || c0 == 'Z') && (c1 == 'h' || c1
            == 'H') {
            AppLocale::Chinese
        } else {
            AppLocale::English
        },
{
    lemma_trim_keeps_first_two(pre, c0, c1, rest);
}

/// Without an override the system locale decides, and without either the
/// language is English.
pub proof fn lemma_detection_falls_back(config: Option<Seq<char>>, system_tag: Option<Seq<char>>)
    requires
        match config {
            Some(c) => first_override(c) is None,
            None => true,
        },
    ensures
        detected_language(config, system_tag) == match system_tag {
            Some(tag) => language_of(tag),
            None => AppLocale::English,
        },
{
}

/// How a window is named, by its length: one week is `1 week` / `1周`; any
/// other whole number `d` of days is `d day(s)` / `d天`; a whole number `h`
/// of hours that is not a whole number of days is `h hour(s)` / `h小时`;
/// any other length is `Current` / `当前`.
pub proof fn lemma_duration_names(minutes: nat, days: nat, hours: nat)
    ensures
        minutes == 10080 ==> duration_label_of(AppLocale::English, minutes) == "1 week"@
            && duration_label_of(AppLocale::Chinese, minutes) == "1周"@,
        days >= 1 && days != 7 && minutes == 1440 * days ==> duration_label_of(
            AppLocale::English,
            minutes,
        ) == decimal(days) + " day"@ + (if days == 1 {
            ""@
        } else {
            "s"@
        }) && duration_label_of(AppLocale::Chinese, minutes) == decimal(days) + "天"@,
        hours >= 1 && hours % 24 != 0 && minutes == 60 * hours ==> duration_label_of(
            AppLocale::English,
            minutes,
        ) == decimal(hours) + " hour"@ + (if hours == 1 {
            ""@
        } else {
            "s"@
        }) && duration_label_of(AppLocale::Chinese, minutes) == decimal(hours) + "小时"@,
        minutes == 0 || minutes % 60 != 0 ==> duration_label_of(AppLocale::English, minutes)
            == "Current"@ && duration_label_of(AppLocale::Chinese, minutes) == "当前"@,
{
    reveal_strlit(" day");
    reveal_strlit("day");
    reveal_strlit(" hour");
    reveal_strlit("hour");
    reveal_strlit("s");
    reveal_strlit("");
    if days >= 1 && days != 7 && minutes == 1440 * days {
        assert(minutes / 1440 == days);
        assert(plural_of(days, "day"@) =~= decimal(days) + " day"@ + (if days == 1 {
            ""@
        } else {
            "s"@
        }));
    }
    if hours >= 1 && hours % 24 != 0 && minutes == 60 * hours {
        assert(minutes / 60 == hours);
        assert(minutes % 1440 != 0);
        assert(plural_of(hours, "hour"@) =~= decimal(hours) + " hour"@ + (if hours == 1 {
            ""@
        } else {
            "s"@
        }));
    }
}

/// When a window resets, as shown: `--` when unknown, in either language;
/// for a window shorter than a day the time of day as `hh:mm`, the same in
/// both languages, whose digits denote the hour and the minute; for longer
/// windows the date: in English the month's abbreviation, a space and the
/// day; in Chinese the month, `月`, the day and `日`.
pub proof fn lemma_reset_label_shapes(duration: nat, t: ResetTime)
    requires
        t.is_valid(),
    ensures
        reset_label_of(AppLocale::English, duration, None) == "--"@,
        reset_label_of(AppLocale::Chinese, duration, None) == "--"@,
        duration < 1440 ==> {
            let label = reset_label_of(AppLocale::English, duration, Some(t));
            &&& reset_label_of(AppLocale::Chinese, duration, Some(t)) == label
            &&& label.len() == 5
            &&& label[2] == ':'
            &&& digits_value(label.take(2)) == t.hour
            &&& digits_value(label.skip(3)) == t.minute
        },
        duration >= 1440 ==> {
            let label = reset_label_of(AppLocale::English, duration, Some(t));
            &&& label.take(3) == month_abbrev(t.month as nat)
            &&& label[3] == ' '
            &&& digits_value(label.skip(4)) == t.day
        },
        duration >= 1440 ==> {
            let label = reset_label_of(AppLocale::Chinese, duration, Some(t));
            &&& label == decimal(t.month as nat) + seq!['月'] + decimal(t.day as nat) + seq!['日']
            &&& digits_value(decimal(t.month as nat)) == t.month
            &&& digits_value(decimal(t.day as nat)) == t.day
        },
{
    lemma_two_digits_denote(t.hour as nat);
    lemma_two_digits_denote(t.minute as nat);
    lemma_decimal_denotes(t.month as nat);
    lemma_decimal_denotes(t.day as nat);
    lemma_month_abbreviations();
    reveal_strlit(":");
    reveal_strlit(" ");
    reveal_strlit("月");
    reveal_strlit("日");
    if duration < 1440 {
        let label = reset_label_of(AppLocale::English, duration, Some(t));
        assert(label.take(2) =~= crate::text::two_digits(t.hour as nat));
        assert(label.skip(3) =~= crate::text::two_digits(t.minute as nat));
    } else {
        let label = reset_label_of(AppLocale::English, duration, Some(t));
        assert(label.take(3) =~= month_abbrev(t.month as nat));
        assert(label.skip(4) =~= decimal(t.day as nat));
        assert("月"@ =~= seq!['月']);
        assert("日"@ =~= seq!['日']);
    }
}

/// The title-bar text of a window, in either language: its name, two
/// spaces, the remaining percentage in decimal and `%`, two spaces, and when
/// it resets.
pub proof fn lemma_metric_text_layout(locale: AppLocale, window: LimitWindow)
    ensures
        metric_text_of(locale, window) == duration_label_of(locale, window.duration_minutes as nat)
            + seq![' ', ' '] + decimal(window.remaining_percent as nat) + seq!['%', ' ', ' ']
            + reset_label_of(locale, window.duration_minutes as nat, window.resets_at),
{
    reveal_strlit("  ");
    reveal_strlit("%  ");
    assert("  "@ =~= seq![' ', ' ']);
    assert("%  "@ =~= seq!['%', ' ', ' ']);
}

/// A setting line `localeOverride = "value"` (or with `'` quotes, and
/// with any white space around the key, the `=` and the quoted value) gives
/// the trimmed value, when that is not empty and holds no quote of the
/// kind used; a line whose text starts with `#` gives nothing.
pub proof fn lemma_override_line(
    pre: Seq<char>,
    gap: Seq<char>,
    space: Seq<char>,
    quote: char,
    value: Seq<char>,
    post: Seq<char>,
)
    requires
        forall|j: int| 0 <= j < pre.len() ==> is_white_space(#[trigger] pre[j]),
        forall|j: int| 0 <= j < gap.len() ==> is_white_space(#[trigger] gap[j]),
        forall|j: int| 0 <= j < space.len() ==> is_white_space(#[trigger] space[j]),
        forall|j: int| 0 <= j < post.len() ==> is_white_space(#[trigger] post[j]),
        quote == '"' || quote == '\'',
        forall|j: int| 0 <= j < value.len() ==> value[j] != quote,
        trim(value).len() > 0,
    ensures
        parse_override(
            pre + "localeOverride"@ + gap + seq!['='] + space + seq![quote] + value + seq![quote]
                + post,
        ) == Some(trim(value)),
        parse_override(pre + seq!['#'] + value) is None,
{
    reveal_strlit("localeOverride");
    let key = "localeOverride"@;
    let quoted = seq![quote] + value + seq![quote];
    let core = key + gap + seq!['='] + space + quoted;
    let line = pre + key + gap + seq!['='] + space + seq![quote] + value + seq![quote] + post;
    assert(line =~= pre + core + post);
    assert(core[0] == 'l');
    assert(core.last() == quote);
    lemma_trim_around(pre, core, post);
    let a = key + gap;
    assert forall|j: int| 0 <= j < a.len() implies a[j] != '=' by {
        if j >= key.len() {
            assert(a[j] == gap[j - key.len()]);
        }
    }
    assert(core =~= a + seq!['='] + (space + quoted));
    lemma_find_char_after(a, '=', space + quoted);
    let empty = Seq::<char>::empty();
    assert(key + gap + empty =~= a);
    assert(key.last() == 'e');
    lemma_trim_around(empty, key, gap);
    assert(empty + key + gap =~= a);
    assert(empty + quoted + empty =~= quoted);
    assert(space + quoted + empty =~= space + quoted);
    lemma_trim_around(space, quoted, empty);
    assert(quoted.drop_first() =~= value + seq![quote] + empty);
    lemma_find_char_after(value, quote, empty);
    lemma_trim_removes_first(pre, value);
}

/// A text that starts, after white space, with `#` trims to a text that
/// starts with `#`.
proof fn lemma_trim_removes_first(pre: Seq<char>, rest: Seq<char>)
    requires
        forall|j: int| 0 <= j < pre.len() ==> is_white_space(#[trigger] pre[j]),
    ensures
        trim(pre + seq!['#'] + rest).len() > 0,
        trim(pre + seq!['#'] + rest)[0] == '#',
{
    if rest.len() > 0 {
        crate::text::lemma_trim_keeps_first_two(pre, '#', rest[0], rest.drop_first());
        assert(pre + seq!['#'] + rest =~= pre + seq!['#', rest[0]] + rest.drop_first());
    } else {
        let whole = pre + seq!['#'];
        let empty = Seq::<char>::empty();
        assert(whole =~= pre + seq!['#'] + empty);
        crate::text::lemma_trim_around(pre, seq!['#'], empty);
        assert(pre + seq!['#'] + rest =~= pre + seq!['#'] + empty);
    }
}

/// A `localeOverride` value is never empty and carries no surrounding
/// white space.
pub proof fn lemma_override_is_trimmed(line: Seq<char>)
    ensures
        parse_override(line) matches Some(v) ==> v.len() > 0 && trim(v) == v,
{
    let t = trim(line);
    match find_char(t, '=') {
        Some(k) => {
            let value = trim(t.skip(k + 1));
            if value.len() > 0 {
                let rest = value.drop_first();
                match find_char(rest, value[0]) {
                    Some(e) => lemma_trim_idempotent(rest.take(e)),
                    None => {},
                }
            }
        },
        None => {},
    }
}

/// For a window labelled in Chinese (as every window read from Codex is),
/// the Chinese title-bar text is made of the window's own labels: `label`,
/// two spaces, the percentage, `%`, two spaces, `reset_label`.
pub proof fn lemma_chinese_metric_text_uses_labels(window: LimitWindow)
    requires
        window.has_chinese_labels(),
    ensures
        metric_text_of(AppLocale::Chinese, window) == window.label@ + "  "@ + decimal(
            window.remaining_percent as nat,
        ) + "%  "@ + window.reset_label@,
{
}

/// Whether `c` lower-cases (ASCII) to `lower`, a lower-case ASCII letter.
fn lowers_to(c: char, lower: char, upper: char) -> (r: bool)
    requires
        'a' <= lower <= 'z',
        upper as u32 + 32 == lower as u32,
    ensures
        r == (ascii_lower(c) == lower),
{
    c == lower || c == upper
}

impl AppLocale {
    /// The language of the title bar, from the text of Codex's
    /// `config.toml` (when it could be read) and the system locale tag
    /// (when it could be read).
    pub fn detect(config: Option<&str>, system_tag: Option<&str>) -> (r: AppLocale)
        ensures
            r == detected_language(
                match config {
                    Some(c) => Some(c@),
                    None => None,
                },
                match system_tag {
                    Some(t) => Some(t@),
                    None => None,
                },
            ),
    {
        let overridden = match config {
            Some(c) => codex_locale_override(c),
            None => None,
        };
        match overridden {
            Some(tag) => AppLocale::from_language_tag(tag.as_str()),
            None => match system_tag {
                Some(tag) => AppLocale::from_language_tag(tag),
                None => AppLocale::English,
            },
        }
    }

    /// The language named by a locale tag such as `zh-CN` or `en-US`.
    pub fn from_language_tag(tag: &str) -> (r: AppLocale)
        ensures
            r == language_of(tag@),
    {
        let t = trim_text(tag);
        if t.unicode_len() >= 2 && lowers_to(t.get_char(0), 'z', 'Z') && lowers_to(
            t.get_char(1),
            'h',
            'H',
        ) {
            AppLocale::Chinese
        } else {
            AppLocale::English
        }
    }

    /// The title-bar text of one window, such as `1 week  94%  Jan 26`.
    pub fn metric_text(self, window: &LimitWindow) -> (r: String)
        requires
            window.is_valid(),
        ensures
            r@ == metric_text_of(self, *window),
    {
        let mut out = self.duration_label(window.duration_minutes);
        out.append("  ");
        push_decimal(&mut out, window.remaining_percent as u64);
        out.append("%  ");
        let reset = self.reset_label(window);
        out.append(reset.as_str());
        out
    }

    /// The status message shown while no quota is known.
    pub fn status_text(self, status: UsageStatus) -> (r: &'static str)
        ensures
            r@ == status_text_of(self, status),
    {
        match (self, status) {
            (AppLocale::Chinese, UsageStatus::Connecting) => "正在读取 Codex 用量…",
            (AppLocale::Chinese, UsageStatus::Retrying) => "暂时无法读取用量，正在重试…",
            (AppLocale::English, UsageStatus::Connecting) => "Reading Codex usage…",
            (AppLocale::English, UsageStatus::Retrying) => "Usage unavailable. Retrying…",
        }
    }

    /// The name of a window of `minutes`.
    pub fn duration_label(self, minutes: u64) -> (r: String)
        ensures
            r@ == duration_label_of(self, minutes as nat),
    {
        if minutes == 10_080 {
            match self {
                AppLocale::Chinese => String::from_str("1周"),
                AppLocale::English => String::from_str("1 week"),
            }
        } else if minutes >= 1_440 && minutes % 1_440 == 0 {
            match self {
                AppLocale::Chinese => {
                    let mut out = String::new();
                    push_decimal(&mut out, minutes / 1_440);
                    out.append("天");
                    out
                },
                AppLocale::English => plural(minutes / 1_440, "day"),
            }
        } else if minutes >= 60 && minutes % 60 == 0 {
            match self {
                AppLocale::Chinese => {
                    let mut out = String::new();
                    push_decimal(&mut out, minutes / 60);
                    out.append("小时");
                    out
                },
                AppLocale::English => plural(minutes / 60, "hour"),
            }
        } else {
            match self {
                AppLocale::Chinese => String::from_str("当前"),
                AppLocale::English => String::from_str("Current"),
            }
        }
    }

    /// When `window` resets.
    pub fn reset_label(self, window: &LimitWindow) -> (r: String)
        requires
            window.is_valid(),
        ensures
            r@ == reset_label_of(self, window.duration_minutes as nat, window.resets_at),
    {
        self.reset_text(window.duration_minutes, window.resets_at)
    }

    /// When a window of `duration_minutes` that resets at `resets_at`
    /// resets.
    pub fn reset_text(self, duration_minutes: u64, resets_at: Option<ResetTime>) -> (r: String)
        requires
            reset_is_valid(resets_at),
        ensures
            r@ == reset_label_of(self, duration_minutes as nat, resets_at),
    {
        match resets_at {
            None => String::from_str("--"),
            Some(reset) => {
                let mut out = String::new();
                if duration_minutes >= 1_440 {
                    match self {
                        AppLocale::Chinese => {
                            push_decimal(&mut out, reset.month as u64);
                            out.append("月");
                            push_decimal(&mut out, reset.day as u64);
                            out.append("日");
                        },
                        AppLocale::English => {
                            out.append(month_name(reset.month));
                            out.append(" ");
                            push_decimal(&mut out, reset.day as u64);
                        },
                    }
                } else {
                    push_two_digits(&mut out, reset.hour as u64);
                    out.append(":");
                    push_two_digits(&mut out, reset.minute as u64);
                }
                out
            },
        }
    }
}

/// The English abbreviation of `month` (1–12).
fn month_name(month: u32) -> (r: &'static str)
    requires
        1 <= month <= 12,
    ensures
        r@ == month_abbrev(month as nat),
{
    if month == 1 { "Jan" }
    else if month == 2 { "Feb" }
    else if month == 3 { "Mar" }
    else if month == 4 { "Apr" }
    else if month == 5 { "May" }
    else if month == 6 { "Jun" }
    else if month == 7 { "Jul" }
    else if month == 8 { "Aug" }
    else if month == 9 { "Sep" }
    else if month == 10 { "Oct" }
    else if month == 11 { "Nov" }
    else { "Dec" }
}

/// `value` and `unit`, with an `s` unless `value` is 1, as in `2 days`.
pub fn plural(value: u64, unit: &str) -> (r: String)
    ensures
        r@ == plural_of(value as nat, unit@),
{
    let mut out = String::new();
    push_decimal(&mut out, value);
    push_char(&mut out, ' ');
    out.append(unit);
    if value != 1 {
        push_char(&mut out, 's');
    }
    proof {
        assert(out@ =~= plural_of(value as nat, unit@));
    }
    out
}

/// The `localeOverride` value of one line of Codex's `config.toml`.
pub fn parse_locale_override(line: &str) -> (r: Option<String>)
    ensures
        match r {
            Some(s) => parse_override(line@) == Some(s@),
            None => parse_override(line@) is None,
        },
{
    let t = trim_text(line);
    let n = t.unicode_len();
    if n > 0 && t.get_char(0) == '#' {
        return None;
    }
    let k = match find_char_in(t, '=') {
        Some(k) => k,
        None => return None,
    };
    proof {
        lemma_find_char_bounds(t@, '=');
    }
    let key = trim_text(t.substring_char(0, k));
    let value = trim_text(t.substring_char(k + 1, n));
    if !same_text(key, "localeOverride") {
        return None;
    }
    let m = value.unicode_len();
    if m == 0 {
        return None;
    }
    let quote = value.get_char(0);
    if quote != '"' && quote != '\'' {
        return None;
    }
    let rest = value.substring_char(1, m);
    proof {
        assert(rest@ =~= value@.drop_first());
    }
    let e = match find_char_in(rest, quote) {
        Some(e) => e,
        None => return None,
    };
    proof {
        lemma_find_char_bounds(rest@, quote);
    }
    let locale = trim_text(rest.substring_char(0, e));
    if locale.unicode_len() == 0 {
        None
    } else {
        Some(String::from_str(locale))
    }
}

/// The `localeOverride` value of the first line of Codex's `config.toml`
/// text `contents` that sets one.
pub fn codex_locale_override(contents: &str) -> (r: Option<String>)
    ensures
        match r {
            Some(s) => first_override(contents@) == Some(s@),
            None => first_override(contents@) is None,
        },
{
    let mut rest: &str = contents;
    loop
        invariant
            first_override(contents@) == first_override(rest@),
        decreases rest@.len(),
    {
        match find_char_in(rest, '\n') {
            None => return parse_locale_override(rest),
            Some(k) => {
                proof {
                    lemma_find_char_bounds(rest@, '\n');
                }
                let line = rest.substring_char(0, k);
                let found = parse_locale_override(line);
                if found.is_some() {
                    return found;
                }
                let n = rest.unicode_len();
                rest = rest.substring_char(k + 1, n);
            },
        }
    }
}

} // verus!
