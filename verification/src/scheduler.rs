//! The decisions of the break scheduler's loop. The loop itself (sleeping,
//! opening and closing windows, emitting events) runs outside; each
//! iteration hands the wall clock in here and gets back what to do and how
//! long to sleep.
use vstd::prelude::*;

use crate::grid::{
    format_rfc3339, local_add_minutes, rfc3339_text, slot_for, slot_outcome, slot_time_ok, Phase,
    Slot, ZonedTime, STAMP_MAX, STAMP_MIN,
};
use crate::state::{clamp_u32, clamped, RuntimeFlags, SNOOZE_MAX_MINUTES, SNOOZE_MIN_MINUTES};

verus! {

/// How far past its intended wake instant an iteration has to land before
/// it is treated as a suspend/hibernate gap, in nanoseconds (120 s).
pub const SUSPEND_GAP_NS: i128 = 120_000_000_000;

/// How often a pending snooze is re-checked, in nanoseconds (30 s).
pub const SNOOZE_POLL_NS: i128 = 30_000_000_000;

/// The sleep used when the slot end already lies in the past (1 s).
pub const FALLBACK_SLEEP_NS: i128 = 1_000_000_000;

/// An instant on the system clock: the nanosecond part is below one second.
pub open spec fn clock_ok(z: ZonedTime) -> bool {
    z.wf() && z.nanos < 1_000_000_000
}

/// Nanoseconds since the Unix epoch.
pub open spec fn epoch_ns(z: ZonedTime) -> int {
    z.utc_secs * 1_000_000_000 + z.nanos
}

/// Milliseconds since the Unix epoch (`DateTime::timestamp_millis`).
pub open spec fn epoch_ms(z: ZonedTime) -> int {
    z.utc_secs * 1000 + z.nanos / 1_000_000
}

pub fn to_epoch_ns(z: &ZonedTime) -> (r: i128)
    requires
        z.wf(),
    ensures
        r == epoch_ns(*z),
{
    (z.utc_secs as i128) * 1_000_000_000 + z.nanos as i128
}

pub fn to_epoch_ms(z: &ZonedTime) -> (r: i64)
    requires
        z.wf(),
    ensures
        r == epoch_ms(*z),
{
    z.utc_secs * 1000 + (z.nanos / 1_000_000) as i64
}

/// What the loop carries from one iteration to the next.
#[derive(Clone, Copy, Debug, PartialEq, Eq, Structural)]
pub struct SchedulerState {
    /// The phase last acted on; `None` forces the next iteration to act.
    pub last_phase: Option<Phase>,
    /// Where the last sleep was meant to end, in epoch nanoseconds.
    pub expected_wake_ns: Option<i128>,
}

impl SchedulerState {
    pub fn new() -> (r: Self)
        ensures
            r.last_phase is None,
            r.expected_wake_ns is None,
    {
        SchedulerState { last_phase: None, expected_wake_ns: None }
    }
}

/// What one iteration decided, before any sleeping.
#[derive(Clone, Copy, Debug)]
pub struct TickPlan {
    /// A pending snooze expired: Pomodoro mode was switched back on.
    pub resumed: bool,
    /// The loop woke from a suspend longer than the grace period: close an
    /// overlay left open from before it.
    pub force_close_stale: bool,
    /// The slot `now` falls in.
    pub slot: Slot,
    /// The phase to act on (open the overlay for a break, expire it for
    /// work), when the phase changed and Pomodoro mode is on.
    pub act_on: Option<Phase>,
}

/// How long the loop overslept: `now` minus the intended wake, or zero
/// when it woke early or there was no intended wake.
pub open spec fn overslept_ns(expected: Option<i128>, now: ZonedTime) -> int {
    match expected {
        Some(e) => if epoch_ns(now) - e > 0 {
            epoch_ns(now) - e
        } else {
            0
        },
        None => 0,
    }
}

/// Whether a snooze expires at `now`: Pomodoro off, a resume time set, and
/// reached.
pub open spec fn snooze_expires(flags: RuntimeFlags, now: ZonedTime) -> bool {
    !flags.pomodoro_enabled && flags.snooze_until_ms != 0 && epoch_ms(now) >= flags.snooze_until_ms
}

/// Whether the wake at `now` counts as a suspend gap.
pub open spec fn suspend_gap(expected: Option<i128>, now: ZonedTime) -> bool {
    overslept_ns(expected, now) > SUSPEND_GAP_NS
}

/// How one iteration with `now` in `slot` leaves the state and flags, and
/// what it plans: a pending snooze that has run out switches Pomodoro mode
/// back on (cancelling the snooze) and forces the phase to be acted on
/// again; a wake more than 120 s after the intended one is a suspend gap
/// that forces it too, and force-closes a stale overlay when it also
/// outlasted the auto-close grace period; the slot's phase is acted on when
/// it differs from the last one acted on (or was forced) and Pomodoro mode
/// is on, and remembered either way.
pub open spec fn tick_spec(
    old_state: SchedulerState,
    old_flags: RuntimeFlags,
    new_state: SchedulerState,
    new_flags: RuntimeFlags,
    now: ZonedTime,
    slot: Slot,
    p: TickPlan,
) -> bool {
    let resumed = snooze_expires(old_flags, now);
    let gap = suspend_gap(old_state.expected_wake_ns, now);
    let grace_ns = old_flags.overlay_auto_close_minutes as int * 60 * 1_000_000_000;
    let forced = resumed || gap;
    let changed = forced || old_state.last_phase != Some(slot.phase);
    &&& p.slot == slot
    &&& p.resumed == resumed
    &&& p.force_close_stale == (gap && overslept_ns(old_state.expected_wake_ns, now) > grace_ns)
    &&& p.act_on == (if changed && new_flags.pomodoro_enabled {
        Some(slot.phase)
    } else {
        None
    })
    &&& new_state.last_phase == Some(slot.phase)
    &&& new_state.expected_wake_ns == old_state.expected_wake_ns
}

/// What the snooze check at `now` does to the flags.
pub open spec fn resume_spec(old_flags: RuntimeFlags, new_flags: RuntimeFlags, now: ZonedTime) -> bool {
    let resumed = snooze_expires(old_flags, now);
    &&& new_flags.pomodoro_enabled == (old_flags.pomodoro_enabled || resumed)
    &&& new_flags.snooze_until_ms == (if resumed {
        0
    } else {
        old_flags.snooze_until_ms
    })
    &&& new_flags.snooze_minutes == (if resumed {
        0
    } else {
        old_flags.snooze_minutes
    })
    &&& new_flags.overlay_auto_close_minutes == old_flags.overlay_auto_close_minutes
}

/// The snooze check: a pending snooze that has run out at `now` switches
/// Pomodoro mode back on. Returns whether it did.
fn resume_if_due(flags: &mut RuntimeFlags, now: &ZonedTime) -> (r: bool)
    requires
        clock_ok(*now),
    ensures
        r == snooze_expires(*old(flags), *now),
        resume_spec(*old(flags), *final(flags), *now),
{
    let now_ms = to_epoch_ms(now);
    if !flags.pomodoro_enabled {
        let until = flags.snooze_until_ms;
        if until != 0 && now_ms >= until {
            flags.apply_pomodoro_enabled(true);
            return true;
        }
    }
    false
}

/// One scheduler iteration at wall-clock `now`, given the slot `now` falls
/// in (see `tick_spec`).
pub fn tick_for_slot(state: &mut SchedulerState, flags: &mut RuntimeFlags, now: &ZonedTime, slot: &Slot) -> (p: TickPlan)
    requires
        clock_ok(*now),
        old(state).expected_wake_ns matches Some(e) ==> -1_000_000_000_000_000_000_000_000 < e
            < 1_000_000_000_000_000_000_000_000,
    ensures
        resume_spec(*old(flags), *final(flags), *now),
        tick_spec(*old(state), *old(flags), *final(state), *final(flags), *now, *slot, p),
{
    let now_ns = to_epoch_ns(now);
    let resumed = resume_if_due(flags, now);
    let mut forced = resumed;
    let mut force_close_stale = false;
    if let Some(expected) = state.expected_wake_ns {
        let diff = now_ns - expected;
        let overslept: i128 = if diff > 0 { diff } else { 0 };
        if overslept > SUSPEND_GAP_NS {
            let grace: i128 = (flags.overlay_auto_close_minutes as i128) * 60 * 1_000_000_000;
            if overslept > grace {
                force_close_stale = true;
            }
            forced = true;
        }
    }
    let changed = forced || state.last_phase != Some(slot.phase);
    let act_on = if changed && flags.pomodoro_enabled { Some(slot.phase) } else { None };
    state.last_phase = Some(slot.phase);
    TickPlan { resumed, force_close_stale, slot: *slot, act_on }
}

/// The start of one scheduler iteration at wall-clock `now`: the slot `now`
/// falls in is looked up in the local zone and the iteration planned for
/// it (`tick_for_slot`). `None` when that slot could not be resolved; the
/// snooze check still runs then.
pub fn plan_tick(state: &mut SchedulerState, flags: &mut RuntimeFlags, now: &ZonedTime) -> (r: Option<TickPlan>)
    requires
        slot_time_ok(*now),
        clock_ok(*now),
        old(state).expected_wake_ns matches Some(e) ==> -1_000_000_000_000_000_000_000_000 < e
            < 1_000_000_000_000_000_000_000_000,
    ensures
        resume_spec(*old(flags), *final(flags), *now),
        final(state).expected_wake_ns == old(state).expected_wake_ns,
        r is None ==> final(state).last_phase == old(state).last_phase,
        exists|s: Option<Slot>|
            #![trigger slot_outcome(*now, crate::grid::Mode::Normal, s)]
            slot_outcome(*now, crate::grid::Mode::Normal, s) && match s {
                Some(slot) => r matches Some(p) && tick_spec(
                    *old(state),
                    *old(flags),
                    *final(state),
                    *final(flags),
                    *now,
                    slot,
                    p,
                ),
                None => r is None,
            },
        r matches Some(p) ==> crate::grid::is_slot_for(p.slot, *now, crate::grid::Mode::Normal),
{
    match slot_for(now) {
        Some(slot) => Some(tick_for_slot(state, flags, now, &slot)),
        None => {
            resume_if_due(flags, now);
            None
        },
    }
}

/// The sleep that ends one iteration, in nanoseconds: until the slot ends
/// (1 s when that already passed), capped by the platform's poll interval
/// when it has one, and by 30 s while a snooze is pending. Remembers where
/// the sleep is meant to end.
pub fn plan_sleep(
    state: &mut SchedulerState,
    flags: &RuntimeFlags,
    slot_end: &ZonedTime,
    now_before_sleep: &ZonedTime,
    poll_cap_ns: Option<i128>,
) -> (r: i128)
    requires
        slot_end.wf(),
        now_before_sleep.wf(),
        poll_cap_ns matches Some(c) ==> 0 <= c <= 1_000_000_000_000_000_000,
    ensures
        ({
            let until_end = epoch_ns(*slot_end) - epoch_ns(*now_before_sleep);
            let base = if until_end < 0 {
                FALLBACK_SLEEP_NS as int
            } else {
                until_end
            };
            let capped = match poll_cap_ns {
                Some(c) => if base < c {
                    base
                } else {
                    c as int
                },
                None => base,
            };
            let pending = !flags.pomodoro_enabled && flags.snooze_until_ms != 0;
            &&& r == (if pending && capped > SNOOZE_POLL_NS {
                SNOOZE_POLL_NS as int
            } else {
                capped
            })
            &&& r >= 0
            &&& pending ==> r <= SNOOZE_POLL_NS
            &&& final(state).expected_wake_ns == Some((epoch_ns(*now_before_sleep) + r) as i128)
            &&& final(state).last_phase == old(state).last_phase
        }),
{
    let until_end = to_epoch_ns(slot_end) - to_epoch_ns(now_before_sleep);
    let base: i128 = if until_end < 0 { FALLBACK_SLEEP_NS } else { until_end };
    let capped: i128 = match poll_cap_ns {
        Some(c) => if base < c { base } else { c },
        None => base,
    };
    let sleep: i128 = if flags.snooze_pending() && capped > SNOOZE_POLL_NS {
        SNOOZE_POLL_NS
    } else {
        capped
    };
    state.expected_wake_ns = Some(to_epoch_ns(now_before_sleep) + sleep);
    sleep
}

/// A pending snooze, as shown to the frontend.
#[derive(Clone, Debug)]
pub struct SnoozeInfo {
    pub resume_at: String,
    pub minutes: u32,
}

/// Pauses Pomodoro mode for `minutes`, clamped into `[30, 120]`, resuming
/// at `now` plus that many minutes (looked up again in the local zone).
pub fn snooze_pomodoro(flags: &mut RuntimeFlags, now: &ZonedTime, minutes: u32) -> (r: SnoozeInfo)
    requires
        now.wf(),
        now.utc_secs <= STAMP_MAX - 86400,
    ensures
        r.minutes == clamped(minutes as int, SNOOZE_MIN_MINUTES as int, SNOOZE_MAX_MINUTES as int),
        !final(flags).pomodoro_enabled,
        final(flags).snooze_minutes == r.minutes,
        exists|at: ZonedTime|
            at.wf() && #[trigger] at.utc_secs == now.utc_secs + 60 * r.minutes && at.nanos
                == now.nanos && r.resume_at@ == rfc3339_text(at.utc_secs, at.nanos, at.offset_secs)
                && final(flags).snooze_until_ms == epoch_ms(at),
        final(flags).overlay_auto_close_minutes == old(flags).overlay_auto_close_minutes,
{
    let minutes = clamp_u32(minutes, SNOOZE_MIN_MINUTES, SNOOZE_MAX_MINUTES);
    let at = local_add_minutes(now, minutes as i64);
    let resume_at = format_rfc3339(&at);
    flags.pomodoro_enabled = false;
    flags.snooze_until_ms = to_epoch_ms(&at);
    flags.snooze_minutes = minutes;
    SnoozeInfo { resume_at, minutes }
}

/// The pending snooze to restore on boot: `None` when none is pending or
/// its resume time lies outside what chrono can represent.
pub fn get_snooze_until(flags: &RuntimeFlags) -> (r: Option<SnoozeInfo>)
    ensures
        flags.snooze_until_ms == 0 ==> r is None,
        r matches Some(info) ==> info.minutes == flags.snooze_minutes && exists|at: ZonedTime|
            at.wf() && #[trigger] epoch_ms(at) == flags.snooze_until_ms && info.resume_at@
                == rfc3339_text(at.utc_secs, at.nanos, at.offset_secs),
        ({
            let secs = flags.snooze_until_ms / 1000;
            flags.snooze_until_ms != 0 && STAMP_MIN <= secs <= STAMP_MAX ==> r is Some
        }),
{
    let until = flags.snooze_until_ms;
    if until == 0 {
        return None;
    }
    let secs = until / 1000;
    let rem = until % 1000;
    let (secs, rem) = if rem < 0 { (secs - 1, rem + 1000) } else { (secs, rem) };
    if secs < STAMP_MIN || secs > STAMP_MAX {
        return None;
    }
    let probe = ZonedTime { utc_secs: secs, nanos: (rem as u32) * 1_000_000, offset_secs: 0 };
    let at = local_add_minutes(&probe, 0);
    proof {
        assert(epoch_ms(at) == until);
    }
    let resume_at = format_rfc3339(&at);
    Some(SnoozeInfo { resume_at, minutes: flags.snooze_minutes })
}

} // verus!
