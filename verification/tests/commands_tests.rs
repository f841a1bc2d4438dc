use reflectodoro::commands::{breakit_attempt, close_overlay, get_checkin_slot, try_close_if_unlocked};
use reflectodoro::state::{AppState, OverlayState};

fn is_closed(o: &OverlayState) -> bool {
    !o.open && !o.reflection_entered && !o.breakit_matched && !o.time_expired
        && o.breakit_challenge.is_empty() && o.current_slot_start.is_empty() && o.save_failure_count == 0
}

fn open_app(slot: &str, challenge: &str) -> AppState {
    let mut app = AppState::new(false);
    app.overlay = OverlayState::opened_for(slot.to_string(), challenge.to_string());
    app
}

#[test]
fn a_matching_attempt_after_a_reflection_closes_and_opens_the_checkin() {
    let mut app = open_app("2026-08-19T10:25:00+02:00", "Abc2");
    app.overlay.mark_reflection_entered();
    let after = breakit_attempt(&mut app, &"Abc2".to_string());
    assert!(is_closed(&after));
    assert!(is_closed(&app.overlay));
    assert_eq!(get_checkin_slot(&app), Some("2026-08-19T10:25:00+02:00".to_string()));
}

#[test]
fn a_matching_attempt_without_a_reflection_keeps_the_overlay_open() {
    let mut app = open_app("s", "Abc2");
    let after = breakit_attempt(&mut app, &"Abc2".to_string());
    assert!(after.open);
    assert!(after.breakit_matched);
    assert_eq!(after.breakit_challenge, "Abc2");
    assert!(app.checkin_slot.is_none());
}

#[test]
fn a_wrong_attempt_after_a_reflection_keeps_the_overlay_open() {
    let mut app = open_app("s", "Abc2");
    app.overlay.mark_reflection_entered();
    let after = breakit_attempt(&mut app, &"abc2".to_string());
    assert!(after.open);
    assert!(!after.breakit_matched);
    assert!(app.checkin_slot.is_none());
}

#[test]
fn any_attempt_closes_once_the_break_is_over_and_a_reflection_entered() {
    let mut app = open_app("s", "Abc2");
    app.overlay.mark_reflection_entered();
    assert_eq!(app.overlay.expire_for_work(), "s");
    let after = breakit_attempt(&mut app, &"nope".to_string());
    assert!(!after.open);
    assert_eq!(app.checkin_slot, Some("s".to_string()));
}

#[test]
fn closing_reports_the_slot_and_whether_a_reflection_was_entered() {
    let mut app = open_app("s", "c");
    let (slot, had) = close_overlay(&mut app);
    assert_eq!((slot.as_str(), had), ("s", false));
    assert!(app.checkin_slot.is_none());
    let mut app = open_app("t", "c");
    app.overlay.mark_reflection_entered();
    let (slot, had) = close_overlay(&mut app);
    assert_eq!((slot.as_str(), had), ("t", true));
    assert_eq!(app.checkin_slot, Some("t".to_string()));
    assert!(is_closed(&app.overlay));
}

#[test]
fn a_locked_overlay_is_left_alone() {
    let mut app = open_app("s", "c");
    assert!(!try_close_if_unlocked(&mut app));
    assert!(app.overlay.open);
    app.overlay.mark_reflection_entered();
    assert!(!try_close_if_unlocked(&mut app));
    app.overlay.record_breakit_attempt(&"c".to_string());
    assert!(try_close_if_unlocked(&mut app));
    assert!(!app.overlay.open);
    assert_eq!(app.checkin_slot, Some("s".to_string()));
}
