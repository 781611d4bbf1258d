use waytime::afk::{event_for_signal, AfkEvent, AfkEventFilter};
use waytime::cli::{day_start_of_clock, format_duration, total_duration, Cli, Commands};
use waytime::clock::LocalClock;
use waytime::db::AppSummary;
use waytime::watcher::{script_file_name, script_object_path, SCRIPT_NAME};

fn summary(app_id: &str, duration_sec: i64) -> AppSummary {
    AppSummary { app_id: app_id.to_string(), duration_sec }
}

#[test]
fn format_duration_examples() {
    assert_eq!(format_duration(0), "0h 0m 0s");
    assert_eq!(format_duration(59), "0h 0m 59s");
    assert_eq!(format_duration(60), "0h 1m 0s");
    assert_eq!(format_duration(3661), "1h 1m 1s");
    assert_eq!(format_duration(86399), "23h 59m 59s");
    assert_eq!(format_duration(360000), "100h 0m 0s");
}

#[test]
fn format_duration_negative() {
    assert_eq!(format_duration(-1), "0h 0m -1s");
    assert_eq!(format_duration(-3661), "-1h -1m -1s");
}

#[test]
fn format_duration_extremes() {
    assert_eq!(format_duration(i64::MAX), format!("{}h {}m {}s", i64::MAX / 3600, (i64::MAX % 3600) / 60, i64::MAX % 60));
    assert_eq!(format_duration(i64::MIN), format!("{}h {}m {}s", i64::MIN / 3600, (i64::MIN % 3600) / 60, i64::MIN % 60));
}

#[test]
fn duration_parts_add_up() {
    for s in [0i64, 1, 59, 60, 3599, 3600, 3661, 90061, -7, -3601] {
        let text = format_duration(s);
        let parts: Vec<i64> = text
            .split(' ')
            .map(|p| p[..p.len() - 1].parse::<i64>().unwrap())
            .collect();
        assert_eq!(parts[0] * 3600 + parts[1] * 60 + parts[2], s);
        assert!(parts[1].abs() < 60 && parts[2].abs() < 60);
    }
}

#[test]
fn total_adds_durations() {
    let summaries = vec![summary("firefox", 3600), summary("kitty", 61), summary("code", 5)];
    assert_eq!(total_duration(&summaries), Some(3666));
    assert_eq!(total_duration(&Vec::new()), Some(0));
}

#[test]
fn total_overflow_is_none() {
    let summaries = vec![summary("a", i64::MAX), summary("b", 1)];
    assert_eq!(total_duration(&summaries), None);
    let summaries = vec![summary("a", i64::MAX), summary("b", 1), summary("c", -5)];
    assert_eq!(total_duration(&summaries), None);
    let summaries = vec![summary("a", i64::MAX), summary("b", -1), summary("c", 1)];
    assert_eq!(total_duration(&summaries), Some(i64::MAX));
}

#[test]
fn day_start_uses_local_midnight_when_given() {
    let clock = LocalClock { timestamp: 1_700_000_000, utc_offset: 3600, midnight: Some(1_699_916_400) };
    assert_eq!(day_start_of_clock(&clock), 1_699_916_400);
}

#[test]
fn day_start_fallback() {
    // 2023-11-14 22:13:20 UTC is 23:13:20 at +01:00; that day began at 2023-11-13 23:00 UTC.
    let clock = LocalClock { timestamp: 1_700_000_000, utc_offset: 3600, midnight: None };
    assert_eq!(day_start_of_clock(&clock), 1_699_916_400);
    // At -05:00 the same instant is 17:13:20 on 2023-11-14, a day that began at 05:00 UTC.
    let clock = LocalClock { timestamp: 1_700_000_000, utc_offset: -18000, midnight: None };
    assert_eq!(day_start_of_clock(&clock), 1_699_938_000);
    let clock = LocalClock { timestamp: 86_400, utc_offset: 0, midnight: None };
    assert_eq!(day_start_of_clock(&clock), 86_400);
}

#[test]
fn day_start_fallback_before_1970_rounds_toward_zero() {
    let clock = LocalClock { timestamp: -100, utc_offset: 0, midnight: None };
    assert_eq!(day_start_of_clock(&clock), 0);
}

#[test]
fn selected_command_defaults_to_today() {
    assert_eq!(Cli { command: None }.selected_command(), Commands::Today);
    assert_eq!(Cli { command: Some(Commands::Daemon) }.selected_command(), Commands::Daemon);
    assert_eq!(Cli { command: Some(Commands::Today) }.selected_command(), Commands::Today);
}

#[test]
fn signals_map_to_events() {
    assert_eq!(event_for_signal(true), AfkEvent::Pause);
    assert_eq!(event_for_signal(false), AfkEvent::Resume);
}

#[test]
fn filter_forwards_only_changes() {
    let mut filter = AfkEventFilter::new();
    let events = [
        AfkEvent::Resume,
        AfkEvent::Resume,
        AfkEvent::Pause,
        AfkEvent::Pause,
        AfkEvent::Pause,
        AfkEvent::Resume,
        AfkEvent::Pause,
    ];
    let forwarded: Vec<AfkEvent> = events.iter().filter(|e| filter.accept(**e)).copied().collect();
    assert_eq!(forwarded, vec![AfkEvent::Resume, AfkEvent::Pause, AfkEvent::Resume, AfkEvent::Pause]);
    for pair in forwarded.windows(2) {
        assert_ne!(pair[0], pair[1]);
    }
}

#[test]
fn script_names() {
    assert_eq!(SCRIPT_NAME, "waytime_watcher");
    assert_eq!(script_file_name(), "waytime_watcher.js");
    assert_eq!(script_object_path(0), "/Scripting/Script0");
    assert_eq!(script_object_path(42), "/Scripting/Script42");
    assert_eq!(script_object_path(-3), "/Scripting/Script-3");
    assert_eq!(script_object_path(i32::MAX), "/Scripting/Script2147483647");
}
