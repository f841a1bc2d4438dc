use reflectodoro::media::{any_output_running, 
    already_toggled_this_break, fourcc, macos_pause_backend, media_key_action,
    media_remote_should_pause, pause_backend, property_address, select_macos_pause_strategy,
    timestamp_is_within_break, MacosPauseStrategy, MediaKeyAction,
};

#[test]
fn media_remote_is_the_default_when_available() {
    assert_eq!(select_macos_pause_strategy(false, true), MacosPauseStrategy::MediaRemote);
}

#[test]
fn falls_back_to_the_media_key_when_mediaremote_is_unavailable() {
    assert_eq!(select_macos_pause_strategy(false, false), MacosPauseStrategy::MediaKey);
}

#[test]
fn the_user_setting_forces_the_media_key_even_when_mediaremote_works() {
    assert_eq!(select_macos_pause_strategy(true, true), MacosPauseStrategy::MediaKey);
}

#[test]
fn forced_and_unavailable_still_selects_the_media_key() {
    assert_eq!(select_macos_pause_strategy(true, false), MacosPauseStrategy::MediaKey);
}

#[test]
fn a_timestamp_after_the_slot_start_is_within_the_break() {
    assert!(timestamp_is_within_break(Some("2026-09-20T10:26:00.000Z"), "2026-09-20T10:25:00+00:00"));
}

#[test]
fn a_timestamp_before_the_slot_start_is_not_within_the_break() {
    assert!(!timestamp_is_within_break(Some("2026-09-20T10:24:59.000Z"), "2026-09-20T10:25:00+00:00"));
}

#[test]
fn compares_instants_not_strings_across_differing_offsets() {
    assert!(timestamp_is_within_break(Some("2026-09-20T12:26:00+02:00"), "2026-09-20T10:25:00+00:00"));
}

#[test]
fn a_missing_or_unparseable_timestamp_fails_open() {
    assert!(!timestamp_is_within_break(None, "2026-09-20T10:25:00+00:00"));
    assert!(!timestamp_is_within_break(Some("not a timestamp"), "2026-09-20T10:25:00+00:00"));
}

#[test]
fn the_slot_start_itself_counts_as_within() {
    assert!(timestamp_is_within_break(Some("2026-09-20T10:25:00Z"), "2026-09-20T10:25:00+00:00"));
}

#[test]
fn media_key_guards_apply_in_order() {
    let slot = "2026-09-20T10:25:00+00:00";
    assert_eq!(media_key_action(Some("2026-09-20T10:26:00Z"), slot, Some(false), false), MediaKeyAction::SkipAlreadyToggled);
    assert_eq!(media_key_action(None, slot, Some(false), true), MediaKeyAction::SkipNothingPlaying);
    assert_eq!(media_key_action(None, slot, None, false), MediaKeyAction::SkipNoPermission);
    assert_eq!(media_key_action(Some("2026-09-20T09:00:00Z"), slot, Some(true), true), MediaKeyAction::Toggle);
}

#[test]
fn an_explicit_resume_during_the_break_is_respected() {
    let slot = "2026-09-20T10:25:00+00:00";
    assert!(!media_remote_should_pause(Some("2026-09-20T10:27:00Z"), slot));
    assert!(media_remote_should_pause(Some("2026-09-20T09:57:00Z"), slot));
    assert!(media_remote_should_pause(None, slot));
}

#[test]
fn one_toggle_per_break_and_backend_labels() {
    let slot = "2026-08-19T10:25:00+02:00";
    assert!(already_toggled_this_break(Some("2026-08-19T08:26:00Z"), slot));
    assert!(!already_toggled_this_break(Some("2026-08-19T08:24:59Z"), slot));
    assert!(!already_toggled_this_break(None, slot));
    assert_eq!(macos_pause_backend(MacosPauseStrategy::MediaRemote), "mediaremote");
    assert_eq!(macos_pause_backend(MacosPauseStrategy::MediaKey), "media_key");
    assert_eq!(pause_backend(false, true, true), "other");
    assert_eq!(pause_backend(true, false, true), "mediaremote");
    assert_eq!(pause_backend(true, true, true), "media_key");
    assert_eq!(pause_backend(true, false, false), "media_key");
}

#[test]
fn core_audio_codes_are_big_endian() {
    assert_eq!(fourcc(*b"glob"), 0x676C_6F62);
    assert_eq!(fourcc(*b"gone"), u32::from_be_bytes(*b"gone"));
    let a = property_address(fourcc(*b"gone"), fourcc(*b"glob"));
    assert_eq!((a.selector, a.scope, a.element), (0x676F_6E65, 0x676C_6F62, 0));
}

#[test]
fn any_running_output_device_answers_yes_and_none_asked_is_unknown() {
    assert_eq!(any_output_running(&vec![None, Some(false), Some(true)]), Some(true));
    assert_eq!(any_output_running(&vec![Some(false), None]), Some(false));
    assert_eq!(any_output_running(&vec![None, None]), None);
    assert_eq!(any_output_running(&vec![]), None);
}
