use waytime::tracker::{StoreAction, Tracker};
use waytime::watcher::WindowEvent;

fn window(app_id: &str, title: &str) -> WindowEvent {
    WindowEvent { app_id: app_id.to_string(), title: title.to_string() }
}

fn insert(app_id: &str, title: &str, started_at: i64, ended_at: i64, remember_id: bool) -> StoreAction {
    StoreAction::InsertInterval {
        app_id: app_id.to_string(),
        title: title.to_string(),
        started_at,
        ended_at,
        remember_id,
    }
}

#[test]
fn first_window_writes_nothing() {
    let mut tracker = Tracker::new();
    assert_eq!(tracker.handle_window_event_at(window("firefox", "Docs"), 100), StoreAction::Nothing);
}

#[test]
fn heartbeat_inserts_then_updates_recorded_row() {
    let mut tracker = Tracker::new();
    tracker.handle_window_event_at(window("firefox", "Docs"), 100);
    assert_eq!(tracker.heartbeat(130), insert("firefox", "Docs", 100, 130, true));
    tracker.record_inserted_id(7);
    assert_eq!(tracker.heartbeat(160), StoreAction::UpdateIntervalEnd { id: 7, ended_at: 160 });
    assert_eq!(tracker.heartbeat(190), StoreAction::UpdateIntervalEnd { id: 7, ended_at: 190 });
}

#[test]
fn heartbeat_without_recorded_row_inserts_again() {
    let mut tracker = Tracker::new();
    tracker.handle_window_event_at(window("kitty", "zsh"), 10);
    assert_eq!(tracker.heartbeat(40), insert("kitty", "zsh", 10, 40, true));
    assert_eq!(tracker.heartbeat(70), insert("kitty", "zsh", 10, 70, true));
}

#[test]
fn heartbeat_under_a_second_writes_nothing() {
    let mut tracker = Tracker::new();
    tracker.handle_window_event_at(window("kitty", "zsh"), 10);
    assert_eq!(tracker.heartbeat(10), StoreAction::Nothing);
    assert_eq!(tracker.heartbeat(9), StoreAction::Nothing);
    assert_eq!(tracker.heartbeat(11), insert("kitty", "zsh", 10, 11, true));
}

#[test]
fn heartbeat_without_session_writes_nothing() {
    let mut tracker = Tracker::new();
    assert_eq!(tracker.heartbeat(50), StoreAction::Nothing);
}

#[test]
fn same_window_only_extends_session() {
    let mut tracker = Tracker::new();
    tracker.handle_window_event_at(window("code", "main.rs"), 100);
    assert_eq!(tracker.handle_window_event_at(window("code", "main.rs"), 200), StoreAction::Nothing);
    assert_eq!(tracker.flush_at(150), insert("code", "main.rs", 100, 200, false));
}

#[test]
fn title_change_ends_session() {
    let mut tracker = Tracker::new();
    tracker.handle_window_event_at(window("code", "main.rs"), 100);
    assert_eq!(
        tracker.handle_window_event_at(window("code", "lib.rs"), 160),
        insert("code", "main.rs", 100, 160, false)
    );
    assert_eq!(tracker.heartbeat(170), insert("code", "lib.rs", 160, 170, true));
}

#[test]
fn window_switch_updates_recorded_row() {
    let mut tracker = Tracker::new();
    tracker.handle_window_event_at(window("code", "main.rs"), 100);
    tracker.heartbeat(130);
    tracker.record_inserted_id(3);
    assert_eq!(
        tracker.handle_window_event_at(window("firefox", "Docs"), 145),
        StoreAction::UpdateIntervalEnd { id: 3, ended_at: 145 }
    );
    assert_eq!(tracker.heartbeat(150), insert("firefox", "Docs", 145, 150, true));
}

#[test]
fn pause_stores_session_once() {
    let mut tracker = Tracker::new();
    tracker.handle_window_event_at(window("code", "main.rs"), 100);
    assert_eq!(tracker.pause_at(120), insert("code", "main.rs", 100, 120, true));
    tracker.record_inserted_id(9);
    assert_eq!(tracker.pause_at(130), StoreAction::Nothing);
    assert_eq!(tracker.heartbeat(140), StoreAction::Nothing);
    assert_eq!(tracker.flush_at(150), StoreAction::UpdateIntervalEnd { id: 9, ended_at: 150 });
}

#[test]
fn pause_then_resume_restarts_session() {
    let mut tracker = Tracker::new();
    tracker.handle_window_event_at(window("code", "main.rs"), 100);
    tracker.heartbeat(130);
    tracker.record_inserted_id(4);
    tracker.pause_at(140);
    tracker.resume_at(500);
    assert_eq!(tracker.heartbeat(500), StoreAction::Nothing);
    assert_eq!(tracker.heartbeat(530), insert("code", "main.rs", 500, 530, true));
}

#[test]
fn resume_when_running_changes_nothing() {
    let mut tracker = Tracker::new();
    tracker.handle_window_event_at(window("code", "main.rs"), 100);
    tracker.resume_at(300);
    assert_eq!(tracker.heartbeat(130), insert("code", "main.rs", 100, 130, true));
}

#[test]
fn window_event_unpauses() {
    let mut tracker = Tracker::new();
    tracker.pause_at(10);
    assert_eq!(tracker.handle_window_event_at(window("kitty", "zsh"), 20), StoreAction::Nothing);
    assert_eq!(tracker.heartbeat(25), insert("kitty", "zsh", 20, 25, true));
}

#[test]
fn same_window_while_paused_keeps_start() {
    let mut tracker = Tracker::new();
    tracker.handle_window_event_at(window("kitty", "zsh"), 20);
    tracker.pause_at(30);
    assert_eq!(tracker.handle_window_event_at(window("kitty", "zsh"), 40), StoreAction::Nothing);
    assert_eq!(tracker.heartbeat(50), insert("kitty", "zsh", 20, 50, true));
}

#[test]
fn flush_keeps_later_end_and_leaves_no_session() {
    let mut tracker = Tracker::new();
    tracker.handle_window_event_at(window("kitty", "zsh"), 20);
    tracker.heartbeat(80);
    assert_eq!(tracker.flush_at(50), insert("kitty", "zsh", 20, 80, false));
    assert_eq!(tracker.heartbeat(90), StoreAction::Nothing);
    assert_eq!(tracker.flush_at(100), StoreAction::Nothing);
}

#[test]
fn flush_of_short_session_writes_nothing() {
    let mut tracker = Tracker::new();
    tracker.handle_window_event_at(window("kitty", "zsh"), 20);
    assert_eq!(tracker.flush_at(20), StoreAction::Nothing);
}

#[test]
fn clock_operations_run() {
    let mut tracker = Tracker::new();
    assert_eq!(tracker.handle_window_event(window("kitty", "zsh")), StoreAction::Nothing);
    let paused = tracker.pause();
    assert!(matches!(paused, StoreAction::Nothing | StoreAction::InsertInterval { remember_id: true, .. }));
    tracker.resume();
    let flushed = tracker.flush();
    assert!(matches!(flushed, StoreAction::Nothing | StoreAction::InsertInterval { remember_id: false, .. }));
    assert_eq!(tracker.heartbeat(i64::MAX), StoreAction::Nothing);
}

#[test]
fn extreme_timestamps_do_not_overflow() {
    let mut tracker = Tracker::new();
    tracker.handle_window_event_at(window("a", "b"), i64::MIN);
    assert_eq!(tracker.heartbeat(i64::MAX), insert("a", "b", i64::MIN, i64::MAX, true));
}

#[test]
fn pause_ends_session_at_the_current_time() {
    let mut tracker = Tracker::new();
    tracker.handle_window_event_at(window("kitty", "zsh"), 0);
    let before = chrono::Local::now().timestamp();
    let action = tracker.pause();
    let after = chrono::Local::now().timestamp();
    match action {
        StoreAction::InsertInterval { app_id, title, started_at, ended_at, remember_id } => {
            assert_eq!((app_id.as_str(), title.as_str(), started_at, remember_id), ("kitty", "zsh", 0, true));
            assert!(before <= ended_at && ended_at <= after);
        }
        other => panic!("expected an insert, got {other:?}"),
    }
}

#[test]
fn window_event_starts_session_at_the_current_time() {
    let mut tracker = Tracker::new();
    let before = chrono::Local::now().timestamp();
    tracker.handle_window_event(window("kitty", "zsh"));
    let after = chrono::Local::now().timestamp();
    match tracker.flush_at(i64::MAX) {
        StoreAction::InsertInterval { started_at, ended_at, .. } => {
            assert!(before <= started_at && started_at <= after);
            assert_eq!(ended_at, i64::MAX);
        }
        other => panic!("expected an insert, got {other:?}"),
    }
}
