//! The break overlay's state and every command that changes it, the
//! breakit challenge configuration, and the runtime switches the frontend
//! pushes down from `app_setting`.
use vstd::prelude::*;

use crate::text::{concat, decimal_spec, u64_text};

verus! {

/// How many consecutive reported save failures (for one overlay
/// occurrence) it takes before the last-resort close is allowed.
pub const SAVE_FAILURE_ESCAPE_THRESHOLD: u32 = 2;

/// Bounds of the breakit challenge length.
pub const BREAKIT_MIN_LENGTH: u32 = 4;
pub const BREAKIT_MAX_LENGTH: u32 = 64;

/// Bounds of the overlay auto-close grace period, in minutes.
pub const AUTO_CLOSE_MIN_MINUTES: u32 = 1;
pub const AUTO_CLOSE_MAX_MINUTES: u32 = 60;

/// Bounds of a snooze, in minutes.
pub const SNOOZE_MIN_MINUTES: u32 = 30;
pub const SNOOZE_MAX_MINUTES: u32 = 120;

#[derive(Clone, Debug)]
pub struct OverlayState {
    pub open: bool,
    pub reflection_entered: bool,
    /// Freshly generated per overlay; typing it out is the early exit.
    pub breakit_challenge: String,
    pub breakit_matched: bool,
    pub time_expired: bool,
    /// ISO local timestamp of the break slot this overlay represents.
    pub current_slot_start: String,
    /// Reflection-save failures reported for this occurrence.
    pub save_failure_count: u32,
}

/// `x` is `v` clamped into `[lo, hi]` (`Ord::clamp`).
pub open spec fn clamped(v: int, lo: int, hi: int) -> int {
    if v < lo {
        lo
    } else if v > hi {
        hi
    } else {
        v
    }
}

/// `v.clamp(lo, hi)` for `u32`.
pub fn clamp_u32(v: u32, lo: u32, hi: u32) -> (r: u32)
    requires
        lo <= hi,
    ensures
        r == clamped(v as int, lo as int, hi as int),
{
    if v < lo {
        lo
    } else if v > hi {
        hi
    } else {
        v
    }
}

impl OverlayState {
    /// The state of a closed overlay: nothing open, nothing entered, no
    /// challenge, no slot.
    pub open spec fn is_closed_state(&self) -> bool {
        &&& !self.open
        &&& !self.reflection_entered
        &&& self.breakit_challenge@.len() == 0
        &&& !self.breakit_matched
        &&& !self.time_expired
        &&& self.current_slot_start@.len() == 0
        &&& self.save_failure_count == 0
    }

    /// A field-by-field copy.
    pub fn snapshot(&self) -> (r: Self)
        ensures
            r == *self,
    {
        OverlayState {
            open: self.open,
            reflection_entered: self.reflection_entered,
            breakit_challenge: self.breakit_challenge.clone(),
            breakit_matched: self.breakit_matched,
            time_expired: self.time_expired,
            current_slot_start: self.current_slot_start.clone(),
            save_failure_count: self.save_failure_count,
        }
    }

    /// The unlock formula: a reflection is required, plus either the break
    /// running out or the challenge typed correctly.
    pub open spec fn unlocked_spec(&self) -> bool {
        self.reflection_entered && (self.time_expired || self.breakit_matched)
    }

    pub fn closed() -> (r: Self)
        ensures
            r.is_closed_state(),
    {
        OverlayState {
            open: false,
            reflection_entered: false,
            breakit_challenge: String::new(),
            breakit_matched: false,
            time_expired: false,
            current_slot_start: String::new(),
            save_failure_count: 0,
        }
    }

    pub fn opened_for(slot_start_iso: String, breakit_challenge: String) -> (r: Self)
        ensures
            r.open,
            !r.reflection_entered,
            r.breakit_challenge == breakit_challenge,
            !r.breakit_matched,
            !r.time_expired,
            r.current_slot_start == slot_start_iso,
            r.save_failure_count == 0,
    {
        OverlayState {
            open: true,
            reflection_entered: false,
            breakit_challenge,
            breakit_matched: false,
            time_expired: false,
            current_slot_start: slot_start_iso,
            save_failure_count: 0,
        }
    }

    /// (time_expired AND reflection_entered) OR (breakit_matched AND
    /// reflection_entered)
    pub fn unlocked(&self) -> (r: bool)
        ensures
            r == self.unlocked_spec(),
    {
        self.reflection_entered && (self.time_expired || self.breakit_matched)
    }

    /// A saved reflection was recorded for this overlay.
    pub fn mark_reflection_entered(&mut self)
        ensures
            final(self).reflection_entered,
            final(self).open == old(self).open,
            final(self).breakit_challenge == old(self).breakit_challenge,
            final(self).breakit_matched == old(self).breakit_matched,
            final(self).time_expired == old(self).time_expired,
            final(self).current_slot_start == old(self).current_slot_start,
            final(self).save_failure_count == old(self).save_failure_count,
    {
        self.reflection_entered = true;
    }

    /// Records a typed breakit attempt: it matches only while the overlay is
    /// open and the input is exactly the challenge. Closing an overlay the
    /// match unlocks is the caller's next step (`commands::breakit_attempt`).
    pub fn record_breakit_attempt(&mut self, input: &String)
        ensures
            final(self).breakit_matched == (old(self).breakit_matched || (old(self).open
                && input@ == old(self).breakit_challenge@)),
            final(self).open == old(self).open,
            final(self).reflection_entered == old(self).reflection_entered,
            final(self).breakit_challenge == old(self).breakit_challenge,
            final(self).time_expired == old(self).time_expired,
            final(self).current_slot_start == old(self).current_slot_start,
            final(self).save_failure_count == old(self).save_failure_count,
    {
        if self.open && *input == self.breakit_challenge {
            self.breakit_matched = true;
        }
    }

    /// One more reported save failure for this occurrence; returns the new
    /// count. A no-op returning 0 when no overlay is open.
    pub fn report_reflection_save_failure(&mut self) -> (r: u32)
        requires
            old(self).open ==> old(self).save_failure_count < u32::MAX,
        ensures
            old(self).open ==> r == old(self).save_failure_count + 1
                && final(self).save_failure_count == r,
            !old(self).open ==> r == 0 && final(self).save_failure_count
                == old(self).save_failure_count,
            final(self).open == old(self).open,
            final(self).reflection_entered == old(self).reflection_entered,
            final(self).breakit_challenge == old(self).breakit_challenge,
            final(self).breakit_matched == old(self).breakit_matched,
            final(self).time_expired == old(self).time_expired,
            final(self).current_slot_start == old(self).current_slot_start,
    {
        if !self.open {
            return 0;
        }
        self.save_failure_count = self.save_failure_count + 1;
        self.save_failure_count
    }

    /// The break -> work transition: an open overlay's time has run out.
    /// Returns the slot it was showing (empty when none).
    pub fn expire_for_work(&mut self) -> (r: String)
        ensures
            r == old(self).current_slot_start,
            final(self).time_expired == (old(self).time_expired || old(self).open),
            final(self).open == old(self).open,
            final(self).reflection_entered == old(self).reflection_entered,
            final(self).breakit_challenge == old(self).breakit_challenge,
            final(self).breakit_matched == old(self).breakit_matched,
            final(self).current_slot_start == old(self).current_slot_start,
            final(self).save_failure_count == old(self).save_failure_count,
    {
        if self.open {
            self.time_expired = true;
        }
        self.current_slot_start.clone()
    }

    /// Whether this overlay is still open for the given slot (the guard of
    /// every delayed action: a late result must not land on another break).
    pub fn still_showing(&self, slot_start: &String) -> (r: bool)
        ensures
            r == (self.open && self.current_slot_start@ == slot_start@),
    {
        self.open && self.current_slot_start == *slot_start
    }

    /// Whether a late configuration sync should replace the challenge: the
    /// overlay is open and its challenge not yet solved.
    pub fn challenge_replaceable(&self) -> (r: bool)
        ensures
            r == (self.open && !self.breakit_matched),
    {
        self.open && !self.breakit_matched
    }

    /// Closes the overlay, returning the slot it showed and whether a
    /// reflection had been entered for it.
    pub fn take_for_close(&mut self) -> (r: (String, bool))
        ensures
            r.0 == old(self).current_slot_start,
            r.1 == old(self).reflection_entered,
            final(self).is_closed_state(),
    {
        let slot = self.current_slot_start.clone();
        let had = self.reflection_entered;
        *self = OverlayState::closed();
        (slot, had)
    }
}

/// "not enough reported save failures yet (count/threshold)".
pub open spec fn save_failure_message(count: u32) -> Seq<char> {
    "not enough reported save failures yet ("@ + decimal_spec(count as nat) + "/"@
        + decimal_spec(SAVE_FAILURE_ESCAPE_THRESHOLD as nat) + ")"@
}

/// Whether the emergency close may proceed: allowed once at least
/// `SAVE_FAILURE_ESCAPE_THRESHOLD` save failures have been counted for the
/// current break, refused with a message naming the count otherwise.
pub fn check_save_failure_escape(count: u32) -> (r: Result<(), String>)
    ensures
        r is Ok <==> count >= SAVE_FAILURE_ESCAPE_THRESHOLD,
        r matches Err(e) ==> e@ == save_failure_message(count),
{
    if count < SAVE_FAILURE_ESCAPE_THRESHOLD {
        let a = concat("not enough reported save failures yet (", u64_text(count as u64).as_str());
        let b = concat(a.as_str(), "/");
        let c = concat(b.as_str(), u64_text(SAVE_FAILURE_ESCAPE_THRESHOLD as u64).as_str());
        let d = concat(c.as_str(), ")");
        proof {
            reveal_strlit("not enough reported save failures yet (");
            reveal_strlit("/");
            reveal_strlit(")");
            assert(d@ =~= save_failure_message(count));
        }
        Err(d)
    } else {
        Ok(())
    }
}

/// The dev-only force close: refused unless dev mode is on.
pub fn check_dev_force_close(dev_mode: bool) -> (r: Result<(), String>)
    ensures
        r is Ok <==> dev_mode,
        r matches Err(e) ==> e@ == "dev mode is not enabled"@,
{
    if !dev_mode {
        return Err(String::from_str("dev mode is not enabled"));
    }
    Ok(())
}

#[derive(Clone, Debug)]
pub struct BreakitConfig {
    pub length: u32,
    pub include_special: bool,
}

impl Default for BreakitConfig {
    fn default() -> (r: Self)
        ensures
            r.length == 15,
            !r.include_special,
    {
        BreakitConfig { length: 15, include_special: false }
    }
}

impl BreakitConfig {
    /// Takes the configuration pushed from the settings, with the length
    /// clamped into `[4, 64]`.
    pub fn sync(&mut self, length: u32, include_special: bool)
        ensures
            final(self).length == clamped(
                length as int,
                BREAKIT_MIN_LENGTH as int,
                BREAKIT_MAX_LENGTH as int,
            ),
            final(self).include_special == include_special,
    {
        self.length = clamp_u32(length, BREAKIT_MIN_LENGTH, BREAKIT_MAX_LENGTH);
        self.include_special = include_special;
    }
}

/// The process-wide switches the frontend pushes down from `app_setting`,
/// and the Pomodoro on/off/snooze state.
#[derive(Clone, Debug)]
pub struct RuntimeFlags {
    pub pomodoro_enabled: bool,
    /// Epoch-millis resume time of a pending snooze; 0 when none.
    pub snooze_until_ms: i64,
    /// The duration chosen for the pending snooze, for the UI only.
    pub snooze_minutes: u32,
    pub force_close_shortcut_enabled: bool,
    pub media_pause_on_break_enabled: bool,
    pub break_notification_persistent_enabled: bool,
    pub screen_time_tracking_enabled: bool,
    pub macos_hide_menu_bar_dock_enabled: bool,
    pub overlay_auto_close_minutes: u32,
    pub last_media_toggle_at: Option<String>,
    pub last_wellness_check_at: Option<String>,
}

impl RuntimeFlags {
    /// The defaults, matching the settings migration's: everything on but
    /// the macOS menu bar/Dock hiding, five minutes of auto-close grace, no
    /// snooze.
    pub fn new() -> (r: Self)
        ensures
            r.pomodoro_enabled,
            r.snooze_until_ms == 0,
            r.snooze_minutes == 0,
            r.force_close_shortcut_enabled,
            r.media_pause_on_break_enabled,
            r.break_notification_persistent_enabled,
            r.screen_time_tracking_enabled,
            !r.macos_hide_menu_bar_dock_enabled,
            r.overlay_auto_close_minutes == 5,
            r.last_media_toggle_at is None,
            r.last_wellness_check_at is None,
    {
        RuntimeFlags {
            pomodoro_enabled: true,
            snooze_until_ms: 0,
            snooze_minutes: 0,
            force_close_shortcut_enabled: true,
            media_pause_on_break_enabled: true,
            break_notification_persistent_enabled: true,
            screen_time_tracking_enabled: true,
            macos_hide_menu_bar_dock_enabled: false,
            overlay_auto_close_minutes: 5,
            last_media_toggle_at: None,
            last_wellness_check_at: None,
        }
    }

    /// A Pomodoro on/off change from any source: always cancels a pending
    /// snooze.
    pub fn apply_pomodoro_enabled(&mut self, enabled: bool)
        ensures
            final(self).pomodoro_enabled == enabled,
            final(self).snooze_until_ms == 0,
            final(self).snooze_minutes == 0,
            final(self).overlay_auto_close_minutes == old(self).overlay_auto_close_minutes,
            final(self).screen_time_tracking_enabled == old(self).screen_time_tracking_enabled,
            final(self).media_pause_on_break_enabled == old(self).media_pause_on_break_enabled,
    {
        self.pomodoro_enabled = enabled;
        self.snooze_until_ms = 0;
        self.snooze_minutes = 0;
    }

    /// The auto-close grace period, clamped into `[1, 60]` minutes.
    pub fn set_overlay_auto_close_minutes(&mut self, minutes: u32)
        ensures
            final(self).overlay_auto_close_minutes == clamped(
                minutes as int,
                AUTO_CLOSE_MIN_MINUTES as int,
                AUTO_CLOSE_MAX_MINUTES as int,
            ),
            final(self).pomodoro_enabled == old(self).pomodoro_enabled,
            final(self).snooze_until_ms == old(self).snooze_until_ms,
    {
        self.overlay_auto_close_minutes = clamp_u32(
            minutes,
            AUTO_CLOSE_MIN_MINUTES,
            AUTO_CLOSE_MAX_MINUTES,
        );
    }

    /// Whether a snooze is pending: Pomodoro off with a resume time set.
    pub fn snooze_pending(&self) -> (r: bool)
        ensures
            r == (!self.pomodoro_enabled && self.snooze_until_ms != 0),
    {
        !self.pomodoro_enabled && self.snooze_until_ms != 0
    }
}

/// Everything the commands share, minus the locks around it.
#[derive(Debug)]
pub struct AppState {
    pub overlay: OverlayState,
    pub breakit_config: BreakitConfig,
    /// Slot start handed off to the wellness check-in window.
    pub checkin_slot: Option<String>,
    pub dev_mode: bool,
    /// Today's task list, cached for the native overlay.
    pub task_list: String,
    /// Today's not-to-do list, cached for the native overlay.
    pub not_to_do_list: String,
    /// The local date the two caches above were captured under.
    pub task_list_date: String,
    /// How many break slots the next submitted reflection will cover.
    pub missed_slot_count: usize,
}

impl AppState {
    pub fn new(dev_mode: bool) -> (r: Self)
        ensures
            r.overlay.is_closed_state(),
            r.breakit_config.length == 15,
            !r.breakit_config.include_special,
            r.checkin_slot is None,
            r.dev_mode == dev_mode,
            r.task_list@.len() == 0,
            r.not_to_do_list@.len() == 0,
            r.task_list_date@.len() == 0,
            r.missed_slot_count == 1,
    {
        AppState {
            overlay: OverlayState::closed(),
            breakit_config: BreakitConfig::default(),
            checkin_slot: None,
            dev_mode,
            task_list: String::new(),
            not_to_do_list: String::new(),
            task_list_date: String::new(),
            missed_slot_count: 1,
        }
    }

    /// The task-list date the open overlay captured, or `today` when none
    /// was captured yet.
    pub fn active_task_list_date(&self, today: &String) -> (r: String)
        ensures
            r@ == (if self.task_list_date@.len() == 0 {
                today@
            } else {
                self.task_list_date@
            }),
    {
        if self.task_list_date.as_str().is_empty() {
            today.clone()
        } else {
            self.task_list_date.clone()
        }
    }
}

/// Breakit attempts never unlock an overlay without a reflection: whatever
/// is typed, the unlock formula still needs `reflection_entered`.
pub proof fn lemma_breakit_alone_never_unlocks(s: OverlayState, input: Seq<char>)
    requires
        !s.reflection_entered,
    ensures
        !(OverlayState {
            breakit_matched: s.breakit_matched || (s.open && input == s.breakit_challenge@),
            ..s
        }).unlocked_spec(),
{
}

} // verus!
