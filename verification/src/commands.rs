//! The commands the frontend invokes, as state changes on `AppState`: the
//! breakit configuration sync (which also corrects an open overlay), the
//! overlay transitions the scheduler drives, the escape hatches, and the
//! small decisions around them.
use vstd::prelude::*;

use crate::breakit::{charset_spec, generate_challenge};
use crate::state::{
    check_dev_force_close, check_save_failure_escape, clamped, AppState, OverlayState,
    BREAKIT_MAX_LENGTH, BREAKIT_MIN_LENGTH,
};
use crate::slots::is_skip_only;

verus! {

/// A challenge under the current configuration.
pub open spec fn valid_challenge(app: AppState, c: Seq<char>) -> bool {
    &&& c.len() == app.breakit_config.length
    &&& forall|i: int| 0 <= i < c.len() ==> charset_spec(app.breakit_config.include_special).contains(
        #[trigger] c[i],
    )
}

/// A fresh challenge from the current breakit configuration.
pub fn generate_breakit_challenge(app: &AppState) -> (r: String)
    requires
        BREAKIT_MIN_LENGTH <= app.breakit_config.length <= BREAKIT_MAX_LENGTH,
    ensures
        valid_challenge(*app, r@),
{
    generate_challenge(app.breakit_config.length, app.breakit_config.include_special)
}

/// Takes the breakit configuration from the settings (length clamped into
/// `[4, 64]`) and, when an overlay is open with its challenge unsolved,
/// replaces that challenge with one under the new configuration. Returns
/// whether it did (the overlay state is then re-broadcast).
pub fn sync_breakit_config(app: &mut AppState, length: u32, include_special: bool) -> (r: bool)
    ensures
        final(app).breakit_config.length == clamped(
            length as int,
            BREAKIT_MIN_LENGTH as int,
            BREAKIT_MAX_LENGTH as int,
        ),
        final(app).breakit_config.include_special == include_special,
        r == (old(app).overlay.open && !old(app).overlay.breakit_matched),
        r ==> valid_challenge(*final(app), final(app).overlay.breakit_challenge@),
        !r ==> final(app).overlay.breakit_challenge == old(app).overlay.breakit_challenge,
        final(app).overlay.open == old(app).overlay.open,
        final(app).overlay.breakit_matched == old(app).overlay.breakit_matched,
        final(app).overlay.reflection_entered == old(app).overlay.reflection_entered,
        final(app).overlay.time_expired == old(app).overlay.time_expired,
        final(app).overlay.current_slot_start == old(app).overlay.current_slot_start,
        final(app).overlay.save_failure_count == old(app).overlay.save_failure_count,
        final(app).dev_mode == old(app).dev_mode,
{
    app.breakit_config.sync(length, include_special);
    if app.overlay.challenge_replaceable() {
        let c = generate_challenge(app.breakit_config.length, app.breakit_config.include_special);
        app.overlay.breakit_challenge = c;
        true
    } else {
        false
    }
}

/// The break transition: the overlay opens for `slot_start` with a fresh
/// challenge.
pub fn open_overlay_for_break(app: &mut AppState, slot_start: String)
    requires
        BREAKIT_MIN_LENGTH <= old(app).breakit_config.length <= BREAKIT_MAX_LENGTH,
    ensures
        final(app).overlay.open,
        !final(app).overlay.reflection_entered,
        !final(app).overlay.breakit_matched,
        !final(app).overlay.time_expired,
        final(app).overlay.current_slot_start == slot_start,
        final(app).overlay.save_failure_count == 0,
        valid_challenge(*final(app), final(app).overlay.breakit_challenge@),
        final(app).breakit_config == old(app).breakit_config,
        final(app).dev_mode == old(app).dev_mode,
{
    let c = generate_breakit_challenge(app);
    app.overlay = OverlayState::opened_for(slot_start, c);
}

/// After the webview warm-up wait: when the overlay is still open for the
/// same slot, its challenge is generated again (the settings may only now
/// have arrived) and the overlay is to be shown; otherwise something closed
/// it meanwhile and the stale show is skipped.
pub fn refresh_challenge_if_current(app: &mut AppState, slot_start: &String) -> (r: bool)
    requires
        BREAKIT_MIN_LENGTH <= old(app).breakit_config.length <= BREAKIT_MAX_LENGTH,
    ensures
        r == (old(app).overlay.open && old(app).overlay.current_slot_start@ == slot_start@),
        r ==> valid_challenge(*final(app), final(app).overlay.breakit_challenge@),
        !r ==> final(app).overlay.breakit_challenge == old(app).overlay.breakit_challenge,
        final(app).overlay.open == old(app).overlay.open,
        final(app).overlay.current_slot_start == old(app).overlay.current_slot_start,
        final(app).overlay.reflection_entered == old(app).overlay.reflection_entered,
        final(app).overlay.breakit_matched == old(app).overlay.breakit_matched,
        final(app).breakit_config == old(app).breakit_config,
{
    if app.overlay.still_showing(slot_start) {
        let c = generate_breakit_challenge(app);
        app.overlay.breakit_challenge = c;
        true
    } else {
        false
    }
}

/// The check-in slot after closing an overlay that showed `slot`: a
/// reflection entered for a real slot opens the wellness check-in for it;
/// otherwise the check-in slot stays as it was.
pub open spec fn checkin_after_close(o: OverlayState, before: Option<String>, after: Option<String>) -> bool {
    if o.reflection_entered && o.current_slot_start@.len() != 0 {
        after matches Some(c) && c@ == o.current_slot_start@
    } else {
        after == before
    }
}

/// Closes the overlay. When a reflection was entered for its slot, the
/// wellness check-in opens for that slot. Returns the slot it showed and
/// whether a reflection had been entered.
pub fn close_overlay(app: &mut AppState) -> (r: (String, bool))
    ensures
        r.0 == old(app).overlay.current_slot_start,
        r.1 == old(app).overlay.reflection_entered,
        final(app).overlay.is_closed_state(),
        checkin_after_close(old(app).overlay, old(app).checkin_slot, final(app).checkin_slot),
        final(app).breakit_config == old(app).breakit_config,
        final(app).dev_mode == old(app).dev_mode,
{
    let (slot, had) = app.overlay.take_for_close();
    if had && !slot.as_str().is_empty() {
        app.checkin_slot = Some(slot.clone());
    }
    (slot, had)
}

/// Closes the overlay when its unlock formula holds (a reflection, plus the
/// break over or the challenge typed); leaves everything as it is otherwise.
/// Returns whether it closed.
pub fn try_close_if_unlocked(app: &mut AppState) -> (r: bool)
    ensures
        r == old(app).overlay.unlocked_spec(),
        r ==> final(app).overlay.is_closed_state() && checkin_after_close(
            old(app).overlay,
            old(app).checkin_slot,
            final(app).checkin_slot,
        ) && final(app).breakit_config == old(app).breakit_config && final(app).dev_mode == old(
            app,
        ).dev_mode,
        !r ==> *final(app) == *old(app),
{
    if app.overlay.unlocked() {
        close_overlay(app);
        true
    } else {
        false
    }
}

/// A typed breakit attempt: it matches only while the overlay is open and
/// the input is exactly the challenge; an overlay that is then unlocked
/// closes (opening the check-in). Returns the overlay state afterwards.
pub fn breakit_attempt(app: &mut AppState, input: &String) -> (r: OverlayState)
    ensures
        ({
            let o = old(app).overlay;
            let m = o.breakit_matched || (o.open && input@ == o.breakit_challenge@);
            if o.reflection_entered && (o.time_expired || m) {
                &&& final(app).overlay.is_closed_state()
                &&& checkin_after_close(o, old(app).checkin_slot, final(app).checkin_slot)
            } else {
                &&& final(app).overlay == (OverlayState { breakit_matched: m, ..o })
                &&& final(app).checkin_slot == old(app).checkin_slot
            }
        }),
        final(app).breakit_config == old(app).breakit_config,
        final(app).dev_mode == old(app).dev_mode,
        r == final(app).overlay,
{
    app.overlay.record_breakit_attempt(input);
    proof {
        assert(app.overlay == (OverlayState {
            breakit_matched: app.overlay.breakit_matched,
            ..old(app).overlay
        }));
    }
    try_close_if_unlocked(app);
    app.overlay.snapshot()
}

/// The last-resort close: refused with "not enough reported save failures
/// yet (count/threshold)" until enough save failures were reported for this
/// occurrence; otherwise the overlay closes.
pub fn close_after_save_failure(app: &mut AppState) -> (r: Result<(String, bool), String>)
    ensures
        r is Ok <==> old(app).overlay.save_failure_count >= crate::state::SAVE_FAILURE_ESCAPE_THRESHOLD,
        r matches Err(e) ==> e@ == crate::state::save_failure_message(old(app).overlay.save_failure_count),
        r matches Ok((slot, had)) ==> slot == old(app).overlay.current_slot_start
            && had == old(app).overlay.reflection_entered && final(app).overlay.is_closed_state()
            && checkin_after_close(old(app).overlay, old(app).checkin_slot, final(app).checkin_slot),
        r is Err ==> *final(app) == *old(app),
{
    match check_save_failure_escape(app.overlay.save_failure_count) {
        Err(e) => Err(e),
        Ok(()) => Ok(close_overlay(app)),
    }
}

/// The dev-mode force close: refused outside dev mode.
pub fn dev_force_close(app: &mut AppState) -> (r: Result<(String, bool), String>)
    ensures
        r is Ok <==> old(app).dev_mode,
        r matches Err(e) ==> e@ == "dev mode is not enabled"@,
        r matches Ok((slot, had)) ==> slot == old(app).overlay.current_slot_start
            && had == old(app).overlay.reflection_entered && final(app).overlay.is_closed_state()
            && checkin_after_close(old(app).overlay, old(app).checkin_slot, final(app).checkin_slot),
        r is Err ==> *final(app) == *old(app),
{
    match check_dev_force_close(app.dev_mode) {
        Err(e) => Err(e),
        Ok(()) => Ok(close_overlay(app)),
    }
}

/// The slot the check-in window was opened for.
pub fn get_checkin_slot(app: &AppState) -> (r: Option<String>)
    ensures
        match app.checkin_slot {
            Some(s) => r matches Some(c) && c@ == s@,
            None => r is None,
        },
{
    match &app.checkin_slot {
        Some(s) => Some(s.clone()),
        None => None,
    }
}

/// A reflection submitted from the native overlay is written only while an
/// overlay is open for a slot and no reflection was recorded for it yet.
pub fn submit_allowed(overlay: &OverlayState) -> (r: bool)
    ensures
        r == (overlay.current_slot_start@.len() != 0 && !overlay.reflection_entered),
{
    !overlay.current_slot_start.as_str().is_empty() && !overlay.reflection_entered
}

/// The slot a reflection submitted during a break is stored under: the
/// work slot the break follows, or the break's own slot string when that
/// does not parse.
pub fn reflection_slot_for(break_slot_start: &str, mode: crate::grid::Mode) -> (r: String)
    ensures
        match crate::grid::iso_map(
            break_slot_start@,
            |z: crate::grid::ZonedTime| crate::grid::preceding_work_spec(z, mode),
        ) {
            Some(t) => r@ == t,
            None => r@ == break_slot_start@,
        },
{
    match crate::grid::preceding_work_slot_start_iso_for(break_slot_start, mode) {
        Some(s) => s,
        None => break_slot_start.to_owned(),
    }
}

/// The "coming next" preview: the saved text of the next slot, unless it
/// is blank or just "skip".
pub fn coming_next_text(plaintext: String) -> (r: String)
    ensures
        crate::slots::is_skip_only_spec(plaintext@) ==> r@.len() == 0,
        !crate::slots::is_skip_only_spec(plaintext@) ==> r@ == plaintext@,
{
    if is_skip_only(plaintext.as_str()) {
        String::new()
    } else {
        plaintext
    }
}

/// Dev mode: `POMODORO_DEV_MODE=1` forces it on, `=0` off; otherwise debug
/// builds run in dev mode.
pub fn resolve_dev_mode(env_value: Option<&str>, debug_build: bool) -> (r: bool)
    ensures
        match env_value {
            Some(v) => if v@ == "1"@ {
                r
            } else if v@ == "0"@ {
                !r
            } else {
                r == debug_build
            },
            None => r == debug_build,
        },
{
    match env_value {
        Some(v) => {
            let s = v.to_owned();
            proof {
                reveal_strlit("1");
                reveal_strlit("0");
            }
            if s == "1".to_owned() {
                true
            } else if s == "0".to_owned() {
                false
            } else {
                debug_build
            }
        },
        None => debug_build,
    }
}

/// The session-type line of the system report on Linux.
pub fn session_type_line(is_x11: bool) -> (r: String)
    ensures
        is_x11 ==> r@ == "X11"@,
        !is_x11 ==> r@ == "Wayland (or unknown)"@,
{
    if is_x11 {
        String::from_str("X11")
    } else {
        String::from_str("Wayland (or unknown)")
    }
}

/// UTF-16 code units of one character (`char::encode_utf16`).
pub open spec fn utf16_of(c: char) -> Seq<u16> {
    let v = (c as u32) as int;
    if v < 0x10000 {
        seq![v as u16]
    } else {
        seq![(0xD800 + (v - 0x10000) / 1024) as u16, (0xDC00 + (v - 0x10000) % 1024) as u16]
    }
}

pub open spec fn utf16_spec(s: Seq<char>) -> Seq<u16>
    decreases s.len(),
{
    if s.len() == 0 {
        Seq::<u16>::empty()
    } else {
        utf16_spec(s.drop_last()) + utf16_of(s.last())
    }
}

/// A string as NUL-terminated UTF-16, for the Win32 wide-string calls.
pub fn to_wide_null(s: &str) -> (r: Vec<u16>)
    ensures
        r@ == utf16_spec(s@).push(0u16),
{
    let cs = crate::text::to_chars(s);
    let mut out: Vec<u16> = Vec::new();
    let mut i: usize = 0;
    while i < cs.len()
        invariant
            0 <= i <= cs.len(),
            cs@ == s@,
            out@ == utf16_spec(cs@.take(i as int)),
        decreases cs.len() - i,
    {
        let c = cs[i];
        let v = c as u32;
        proof {
            assert(cs@.take(i + 1).drop_last() =~= cs@.take(i as int));
            assert(cs@.take(i + 1).last() == c);
            vstd::utf8::char_is_scalar(c);
            assert(v <= 0x10FFFF);
        }
        let ghost before = out@;
        if v < 0x10000 {
            out.push(v as u16);
        } else {
            let w = v - 0x10000;
            out.push((0xD800 + w / 1024) as u16);
            out.push((0xDC00 + w % 1024) as u16);
        }
        proof {
            assert(out@ =~= before + utf16_of(c));
        }
        i = i + 1;
    }
    proof {
        assert(cs@.take(cs.len() as int) =~= cs@);
    }
    out.push(0u16);
    out
}

} // verus!
