use reflectodoro::screen_time::{current_session_snapshot, FocusTracker, FocusedApp, UtcTime};

fn t(secs: i64) -> UtcTime {
    UtcTime { secs: 1_790_000_000 + secs, nanos: 0 }
}

fn app(id: &str) -> Option<FocusedApp> {
    Some(FocusedApp { app_id: id.to_string(), display_name: format!("{id} app") })
}

#[test]
fn a_real_switch_closes_the_previous_session() {
    let mut tr = FocusTracker::new();
    tr.record_focus_change(true, app("editor.exe"), &t(0), "windows");
    tr.record_focus_change(true, app("browser.exe"), &t(60), "windows");
    let batch = tr.drain();
    assert_eq!(batch.len(), 1);
    assert_eq!(batch[0].app_id, "editor.exe");
    assert_eq!(batch[0].display_name, "editor.exe app");
    assert_eq!(batch[0].platform, "windows");
    assert_eq!(batch[0].started_at, "2026-09-21T14:13:20.000Z");
    assert_eq!(batch[0].ended_at, "2026-09-21T14:14:20.000Z");
    assert!(tr.drain().is_empty());
}

#[test]
fn refocusing_the_same_app_is_not_a_switch_and_short_sessions_drop() {
    let mut tr = FocusTracker::new();
    tr.record_focus_change(true, app("a"), &t(0), "linux");
    tr.record_focus_change(true, app("a"), &t(30), "linux");
    tr.record_focus_change(true, app("b"), &t(40), "linux");
    tr.record_focus_change(true, None, &t(44), "linux");
    let batch = tr.drain();
    assert_eq!(batch.len(), 1);
    assert_eq!(batch[0].app_id, "a");
    assert!(tr.current.is_none());
}

#[test]
fn tracking_off_ignores_focus_changes() {
    let mut tr = FocusTracker::new();
    tr.record_focus_change(false, app("a"), &t(0), "linux");
    assert!(tr.current.is_none());
}

#[test]
fn a_suspend_truncates_the_session_and_restarts_it_at_wake() {
    let mut tr = FocusTracker::new();
    tr.record_focus_change(true, app("reader"), &t(0), "macos");
    let reset = tr.flush_tick(&t(36_000), &t(60), 0, "macos");
    assert!(reset);
    let batch = tr.drain();
    assert_eq!(batch.len(), 1);
    assert_eq!(batch[0].ended_at, "2026-09-21T14:14:20.000Z");
    let snap = current_session_snapshot(&tr, &t(36_030)).unwrap();
    assert_eq!(snap.app_id, "reader");
    assert_eq!(snap.elapsed_ms, 30_000);
}

#[test]
fn checkpoints_split_long_sessions_and_quiet_ticks_do_nothing() {
    let mut tr = FocusTracker::new();
    tr.record_focus_change(true, app("ide"), &t(0), "linux");
    assert!(!tr.flush_tick(&t(60), &t(60), 60_000_000_000, "linux"));
    assert!(tr.drain().is_empty());
    assert!(tr.flush_tick(&t(900), &t(900), 900_000_000_000, "linux"));
    let batch = tr.drain();
    assert_eq!(batch.len(), 1);
    assert_eq!(tr.current.as_ref().unwrap().started_at, t(900));
}

#[test]
fn a_failed_batch_goes_back_in_front() {
    let mut tr = FocusTracker::new();
    tr.record_focus_change(true, app("a"), &t(0), "linux");
    tr.record_focus_change(true, app("b"), &t(10), "linux");
    let batch = tr.drain();
    tr.record_focus_change(true, app("c"), &t(20), "linux");
    tr.requeue_front(batch);
    let ids: Vec<String> = tr.drain().into_iter().map(|s| s.app_id).collect();
    assert_eq!(ids, vec!["a".to_string(), "b".to_string()]);
}

#[test]
fn elapsed_time_never_goes_negative() {
    let mut tr = FocusTracker::new();
    tr.record_focus_change(true, app("a"), &t(100), "linux");
    assert_eq!(current_session_snapshot(&tr, &t(50)).unwrap().elapsed_ms, 0);
    assert!(current_session_snapshot(&FocusTracker::new(), &t(0)).is_none());
}

#[test]
fn switching_tracking_off_closes_the_session() {
    let mut tr = FocusTracker::new();
    tr.record_focus_change(true, app("editor"), &t(0), "linux");
    tr.close_current_session(&t(120), "linux");
    assert!(tr.current.is_none());
    let batch = tr.drain();
    assert_eq!(batch.len(), 1);
    assert_eq!(batch[0].ended_at, "2026-09-21T14:15:20.000Z");
    tr.close_current_session(&t(200), "linux");
    assert!(tr.drain().is_empty());
}
