use reflectodoro::commands::{
    close_after_save_failure, coming_next_text, dev_force_close, get_checkin_slot, open_overlay_for_break,
    refresh_challenge_if_current, resolve_dev_mode, submit_allowed, sync_breakit_config,
    to_wide_null,
};
use reflectodoro::state::{check_save_failure_escape, AppState, OverlayState, RuntimeFlags};

#[test]
fn a_closed_overlay_is_empty() {
    let s = OverlayState::closed();
    assert!(!s.open && !s.reflection_entered && !s.breakit_matched && !s.time_expired);
    assert!(s.breakit_challenge.is_empty() && s.current_slot_start.is_empty());
    assert_eq!(s.save_failure_count, 0);
}

#[test]
fn unlocking_needs_a_reflection_plus_time_or_the_challenge() {
    let mut s = OverlayState::opened_for("slot".to_string(), "Abc2".to_string());
    assert!(!s.unlocked());
    s.record_breakit_attempt(&"Abc2".to_string());
    assert!(s.breakit_matched);
    assert!(!s.unlocked());
    s.mark_reflection_entered();
    assert!(s.unlocked());
    let mut t = OverlayState::opened_for("slot".to_string(), "x".to_string());
    t.mark_reflection_entered();
    assert_eq!(t.expire_for_work(), "slot");
    assert!(t.unlocked());
}

#[test]
fn a_wrong_or_late_breakit_attempt_does_not_match() {
    let mut s = OverlayState::opened_for("slot".to_string(), "Abc2".to_string());
    s.record_breakit_attempt(&"abc2".to_string());
    assert!(!s.breakit_matched);
    let mut c = OverlayState::closed();
    c.record_breakit_attempt(&String::new());
    assert!(!c.breakit_matched);
}

#[test]
fn save_failures_count_only_while_open_and_gate_the_escape() {
    let mut c = OverlayState::closed();
    assert_eq!(c.report_reflection_save_failure(), 0);
    let mut app = AppState::new(false);
    app.overlay = OverlayState::opened_for("s".to_string(), "c".to_string());
    assert_eq!(app.overlay.report_reflection_save_failure(), 1);
    assert_eq!(
        close_after_save_failure(&mut app).unwrap_err(),
        "not enough reported save failures yet (1/2)"
    );
    assert_eq!(app.overlay.report_reflection_save_failure(), 2);
    let (slot, had) = close_after_save_failure(&mut app).unwrap();
    assert_eq!((slot.as_str(), had), ("s", false));
    assert!(!app.overlay.open);
    assert!(check_save_failure_escape(7).is_ok());
}

#[test]
fn dev_force_close_needs_dev_mode() {
    let mut app = AppState::new(false);
    assert_eq!(dev_force_close(&mut app).unwrap_err(), "dev mode is not enabled");
    let mut dev = AppState::new(true);
    dev.overlay = OverlayState::opened_for("s".to_string(), "c".to_string());
    assert!(dev_force_close(&mut dev).is_ok());
    assert!(!dev.overlay.open);
}

#[test]
fn app_state_starts_closed_with_defaults() {
    let app = AppState::new(true);
    assert!(app.dev_mode);
    assert!(!app.overlay.open);
    assert_eq!(app.breakit_config.length, 15);
    assert!(!app.breakit_config.include_special);
    assert_eq!(app.missed_slot_count, 1);
    assert!(app.checkin_slot.is_none());
}

#[test]
fn breakit_sync_clamps_and_corrects_an_open_overlay() {
    let mut app = AppState::new(false);
    assert!(!sync_breakit_config(&mut app, 2, false));
    assert_eq!(app.breakit_config.length, 4);
    open_overlay_for_break(&mut app, "slot".to_string());
    assert_eq!(app.overlay.breakit_challenge.chars().count(), 4);
    assert!(sync_breakit_config(&mut app, 500, true));
    assert_eq!(app.breakit_config.length, 64);
    assert_eq!(app.overlay.breakit_challenge.chars().count(), 64);
    app.overlay.breakit_matched = true;
    let solved = app.overlay.breakit_challenge.clone();
    assert!(!sync_breakit_config(&mut app, 10, false));
    assert_eq!(app.overlay.breakit_challenge, solved);
}

#[test]
fn a_stale_show_is_skipped_after_a_close() {
    let mut app = AppState::new(false);
    open_overlay_for_break(&mut app, "slot".to_string());
    assert!(refresh_challenge_if_current(&mut app, &"slot".to_string()));
    assert!(!refresh_challenge_if_current(&mut app, &"other".to_string()));
    app.overlay.take_for_close();
    assert!(!refresh_challenge_if_current(&mut app, &"slot".to_string()));
}

#[test]
fn auto_close_minutes_are_clamped() {
    let mut f = RuntimeFlags::new();
    assert_eq!(f.overlay_auto_close_minutes, 5);
    f.set_overlay_auto_close_minutes(0);
    assert_eq!(f.overlay_auto_close_minutes, 1);
    f.set_overlay_auto_close_minutes(u32::MAX);
    assert_eq!(f.overlay_auto_close_minutes, 60);
    f.set_overlay_auto_close_minutes(17);
    assert_eq!(f.overlay_auto_close_minutes, 17);
}

#[test]
fn submits_and_previews_follow_the_overlay() {
    let o = OverlayState::opened_for("s".to_string(), "c".to_string());
    assert!(submit_allowed(&o));
    assert!(!submit_allowed(&OverlayState::closed()));
    assert_eq!(coming_next_text("Skip".to_string()), "");
    assert_eq!(coming_next_text("Plan the demo".to_string()), "Plan the demo");
}

#[test]
fn dev_mode_follows_the_environment_then_the_build() {
    assert!(resolve_dev_mode(Some("1"), false));
    assert!(!resolve_dev_mode(Some("0"), true));
    assert!(resolve_dev_mode(Some("yes"), true));
    assert!(!resolve_dev_mode(None, false));
}

#[test]
fn wide_strings_are_utf16_with_a_terminator() {
    assert_eq!(to_wide_null("ab"), vec![0x61, 0x62, 0]);
    assert_eq!(to_wide_null("\u{1F600}"), vec![0xD83D, 0xDE00, 0]);
    let expected: Vec<u16> = "héllo \u{10348}".encode_utf16().chain(std::iter::once(0)).collect();
    assert_eq!(to_wide_null("héllo \u{10348}"), expected);
}

#[test]
fn the_task_list_date_and_checkin_slot_read_back() {
    let mut app = AppState::new(false);
    assert_eq!(app.active_task_list_date(&"2026-08-19".to_string()), "2026-08-19");
    app.task_list_date = "2026-08-18".to_string();
    assert_eq!(app.active_task_list_date(&"2026-08-19".to_string()), "2026-08-18");
    assert_eq!(get_checkin_slot(&app), None);
    app.checkin_slot = Some("2026-08-19T10:25:00+02:00".to_string());
    assert_eq!(get_checkin_slot(&app).as_deref(), Some("2026-08-19T10:25:00+02:00"));
}
