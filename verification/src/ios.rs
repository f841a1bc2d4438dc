//! iOS break enforcement while the app is not running: which break
//! notifications to hand to the OS ahead of time and what the Live
//! Activity shows, recomputed only when something it depends on changed.
//! The Swift bridge calls run outside.
use vstd::prelude::*;

use crate::grid::{
    is_slot_for, is_upcoming, mode_name, slot_for_mode, slot_outcome, slot_time_ok, to_rfc3339,
    upcoming_break_starts_for, rfc3339_text, starts_break_slot, upcoming_walk, Mode, Phase, Slot, ZonedTime, STAMP_MAX, STAMP_MIN,
};
use crate::text::{bool_text, bool_text_spec, concat, i64_text, signed_decimal_spec};

verus! {

/// iOS keeps at most 64 pending notifications per app; 48 is a day of
/// breaks.
pub const NOTIFICATION_WINDOW: usize = 48;

/// What `DateTime<Utc>::to_rfc3339_opts(SecondsFormat::Secs, true)` prints
/// for an instant: UTC, whole seconds, `Z` suffix.
pub uninterp spec fn utc_secs_text(utc_secs: i64, nanos: u32) -> Seq<char>;

/// `DateTime<Utc>::to_rfc3339_opts(SecondsFormat::Secs, true)`.
#[verifier::external_body]
fn format_utc_secs(utc_secs: i64, nanos: u32) -> (r: String)
    requires
        STAMP_MIN <= utc_secs <= STAMP_MAX,
        nanos < 2_000_000_000,
        nanos >= 1_000_000_000 ==> utc_secs % 60 == 59,
    ensures
        r@ == utc_secs_text(utc_secs, nanos),
{
    match chrono::DateTime::from_timestamp(utc_secs, nanos) {
        Some(dt) => dt.to_rfc3339_opts(chrono::SecondsFormat::Secs, true),
        None => String::new(),
    }
}

/// What the Lock Screen Live Activity shows.
#[derive(Clone, Debug)]
pub struct LiveActivityState {
    pub phase: &'static str,
    pub phase_end: String,
    pub next_break_start: String,
    pub next_break_end: String,
    pub reflection_pending: bool,
}

/// Whether the next refresh must push even if nothing it tracks changed,
/// and the state it last pushed.
#[derive(Clone, Debug)]
pub struct IosRefreshState {
    pub force: bool,
    pub last_pushed: Option<String>,
}

impl IosRefreshState {
    pub fn new() -> (r: Self)
        ensures
            r.force,
            r.last_pushed is None,
    {
        IosRefreshState { force: true, last_pushed: None }
    }

}

/// A resume or a settings change: the next refresh pushes.
pub fn wake(state: &mut IosRefreshState)
    ensures
        final(state).force,
        final(state).last_pushed == old(state).last_pushed,
{
    state.force = true;
}

/// Everything a refresh pushes to the bridge.
#[derive(Clone, Debug)]
pub struct IosPlan {
    /// Remove every pending break notification (Pomodoro off, no snooze).
    pub clear_notifications: bool,
    /// Otherwise, the fire dates to schedule.
    pub fire_dates: Vec<String>,
    /// Pomodoro off: end the Live Activity.
    pub end_live_activity: bool,
    /// Pomodoro on: what the Live Activity shows (when there is a next
    /// break to show).
    pub live_activity: Option<LiveActivityState>,
}

/// The change key: everything the pushed state depends on.
pub open spec fn refresh_key_spec(
    enabled: bool,
    snooze_until_ms: i64,
    reflection_pending: bool,
    mode: Mode,
    slot_start: ZonedTime,
) -> Seq<char> {
    bool_text_spec(enabled) + "|"@ + signed_decimal_spec(snooze_until_ms as int) + "|"@ + bool_text_spec(
        reflection_pending,
    ) + "|"@ + mode_name(mode) + "|"@ + rfc3339_text(
        slot_start.utc_secs,
        slot_start.nanos,
        slot_start.offset_secs,
    )
}

/// The instant a snooze resumes at (`DateTime::from_timestamp_millis`),
/// when it is representable.
pub open spec fn resume_instant(ms: i64) -> Option<(int, int)> {
    let secs = ms / 1000;
    let rem = ms % 1000;
    if STAMP_MIN <= secs <= STAMP_MAX {
        Some((secs, rem * 1_000_000))
    } else {
        None
    }
}

/// A break start that notifications may fire for: anything while not
/// snoozed, else a start at or after the resume instant.
pub open spec fn fires_after_snooze(snoozed: bool, ms: i64, z: ZonedTime) -> bool {
    !snoozed || match resume_instant(ms) {
        Some((s, n)) => z.utc_secs > s || (z.utc_secs == s && z.nanos >= n),
        None => true,
    }
}

/// The Live Activity's name for a phase.
pub open spec fn phase_label(p: Phase) -> Seq<char> {
    match p {
        Phase::Break => "break"@,
        Phase::Work => "work"@,
    }
}

/// The notification fire dates for a list of break starts: the starts a
/// snooze does not suppress, each as whole-second UTC text, in order.
pub open spec fn notification_texts(starts: Seq<ZonedTime>, snoozed: bool, ms: i64) -> Seq<Seq<char>> {
    starts.filter(|z: ZonedTime| fires_after_snooze(snoozed, ms, z)).map_values(
        |z: ZonedTime| utc_secs_text(z.utc_secs, z.nanos),
    )
}

/// What a pushed plan holds for `now`'s slot `slot`.
pub open spec fn plan_matches(
    p: IosPlan,
    now: ZonedTime,
    slot: Slot,
    enabled: bool,
    snooze_until_ms: i64,
    reflection_pending: bool,
    mode: Mode,
) -> bool {
    let snoozed = !enabled && snooze_until_ms != 0;
    &&& p.clear_notifications == (!enabled && !snoozed)
    &&& p.clear_notifications ==> p.fire_dates@.len() == 0
    &&& !p.clear_notifications ==> exists|starts: Seq<ZonedTime>|
        #![trigger is_upcoming(starts, now, NOTIFICATION_WINDOW as int)]
        is_upcoming(starts, now, NOTIFICATION_WINDOW as int) && (forall|i: int|
            0 <= i < starts.len() ==> starts_break_slot(#[trigger] starts[i], mode)) && upcoming_walk(
            now,
            NOTIFICATION_WINDOW as int,
            mode,
            starts,
        ) && p.fire_dates.deep_view() == notification_texts(starts, snoozed, snooze_until_ms)
    &&& p.end_live_activity == !enabled
    &&& !enabled ==> p.live_activity is None
    &&& p.live_activity matches Some(la) ==> {
        &&& la.reflection_pending == reflection_pending
        &&& la.phase@ == phase_label(slot.phase)
        &&& la.phase_end@ == utc_secs_text(slot.end.utc_secs, slot.end.nanos)
        &&& exists|b: ZonedTime, next: Slot|
            #![trigger is_slot_for(next, b, mode)]
            is_slot_for(next, b, mode) && (slot.phase == Phase::Work ==> b == slot.end) && (
            slot.phase == Phase::Break ==> now.before(b) && starts_break_slot(b, mode) && upcoming_walk(
                now,
                1,
                mode,
                seq![b],
            )) && la.next_break_start@ == utc_secs_text(
                b.utc_secs,
                b.nanos,
            ) && la.next_break_end@ == utc_secs_text(next.end.utc_secs, next.end.nanos)
    }
}

fn build_key(
    enabled: bool,
    snooze_until_ms: i64,
    reflection_pending: bool,
    mode: Mode,
    slot_start: &ZonedTime,
) -> (r: String)
    requires
        slot_start.wf(),
    ensures
        r@ == refresh_key_spec(enabled, snooze_until_ms, reflection_pending, mode, *slot_start),
{
    let a = concat(bool_text(enabled).as_str(), "|");
    let b = concat(a.as_str(), i64_text(snooze_until_ms).as_str());
    let c = concat(b.as_str(), "|");
    let d = concat(c.as_str(), bool_text(reflection_pending).as_str());
    let e = concat(d.as_str(), "|");
    let f = concat(e.as_str(), mode.as_str());
    let g = concat(f.as_str(), "|");
    let h = concat(g.as_str(), to_rfc3339(slot_start).as_str());
    proof {
        assert(h@ =~= refresh_key_spec(enabled, snooze_until_ms, reflection_pending, mode, *slot_start));
    }
    h
}

/// Whether a refresh for `slot` pushes: when forced, or when the change
/// key differs from the one last pushed.
pub open spec fn refresh_pushes(
    state: IosRefreshState,
    enabled: bool,
    snooze_until_ms: i64,
    reflection_pending: bool,
    mode: Mode,
    slot: Slot,
) -> bool {
    let key = refresh_key_spec(enabled, snooze_until_ms, reflection_pending, mode, slot.start);
    state.force || !(state.last_pushed matches Some(l) && l@ == key)
}

/// What one refresh for `now`'s slot `slot` does: the force flag is used
/// up; when it pushes, the new key is remembered and the plan matches the
/// slot (`plan_matches`); otherwise nothing changes and nothing is pushed.
pub open spec fn refresh_spec(
    old_state: IosRefreshState,
    new_state: IosRefreshState,
    now: ZonedTime,
    enabled: bool,
    snooze_until_ms: i64,
    reflection_pending: bool,
    mode: Mode,
    slot: Slot,
    r: Option<IosPlan>,
) -> bool {
    let key = refresh_key_spec(enabled, snooze_until_ms, reflection_pending, mode, slot.start);
    &&& !new_state.force
    &&& if refresh_pushes(old_state, enabled, snooze_until_ms, reflection_pending, mode, slot) {
        &&& new_state.last_pushed matches Some(k) && k@ == key
        &&& r matches Some(p) && plan_matches(
            p,
            now,
            slot,
            enabled,
            snooze_until_ms,
            reflection_pending,
            mode,
        )
    } else {
        &&& new_state.last_pushed == old_state.last_pushed
        &&& r is None
    }
}

/// One refresh at `now`: `None` when nothing needs pushing (not forced and
/// the key is unchanged) or `now`'s slot could not be resolved; otherwise
/// the plan for the slot (`refresh_for_slot`).
pub fn plan_refresh(
    state: &mut IosRefreshState,
    now: &ZonedTime,
    enabled: bool,
    snooze_until_ms: i64,
    reflection_pending: bool,
    mode: Mode,
) -> (r: Option<IosPlan>)
    requires
        slot_time_ok(*now),
    ensures
        !final(state).force,
        exists|s: Option<Slot>|
            #![trigger slot_outcome(*now, mode, s)]
            slot_outcome(*now, mode, s) && match s {
                Some(slot) => is_slot_for(slot, *now, mode) && refresh_spec(
                    *old(state),
                    *final(state),
                    *now,
                    enabled,
                    snooze_until_ms,
                    reflection_pending,
                    mode,
                    slot,
                    r,
                ),
                None => r is None && final(state).last_pushed == old(state).last_pushed,
            },
{
    match slot_for_mode(now, mode) {
        Some(slot) => refresh_for_slot(state, now, enabled, snooze_until_ms, reflection_pending, mode, &slot),
        None => {
            state.force = false;
            None
        },
    }
}

/// One refresh at `now` for the slot `now` falls in: the pending
/// notifications are cleared (Pomodoro off, no snooze) or set to the next
/// day of break starts (those at or after a pending snooze's resume
/// instant), and the Live Activity is ended (Pomodoro off) or shows the
/// current phase and the next break -- unless nothing it depends on
/// changed and it was not forced.
pub fn refresh_for_slot(
    state: &mut IosRefreshState,
    now: &ZonedTime,
    enabled: bool,
    snooze_until_ms: i64,
    reflection_pending: bool,
    mode: Mode,
    slot: &Slot,
) -> (r: Option<IosPlan>)
    requires
        slot_time_ok(*now),
        is_slot_for(*slot, *now, mode),
    ensures
        refresh_spec(
            *old(state),
            *final(state),
            *now,
            enabled,
            snooze_until_ms,
            reflection_pending,
            mode,
            *slot,
            r,
        ),
{
    let force = state.force;
    state.force = false;
    let slot = *slot;
    let key = build_key(enabled, snooze_until_ms, reflection_pending, mode, &slot.start);
    let same = match &state.last_pushed {
        Some(last) => *last == key,
        None => false,
    };
    if !force && same {
        return None;
    }
    state.last_pushed = Some(key);
    let snoozed = !enabled && snooze_until_ms != 0;
    let mut fire_dates: Vec<String> = Vec::new();
    let clear = !enabled && !snoozed;
    if !clear {
        let secs = snooze_until_ms / 1000;
        let rem = snooze_until_ms % 1000;
        let (secs, rem) = if rem < 0 { (secs - 1, rem + 1000) } else { (secs, rem) };
        let resume: Option<(i64, u32)> = if STAMP_MIN <= secs && secs <= STAMP_MAX {
            Some((secs, (rem as u32) * 1_000_000))
        } else {
            None
        };
        let starts = upcoming_break_starts_for(now, NOTIFICATION_WINDOW, mode);
        proof {
            assert(resume matches Some((s, n)) ==> resume_instant(snooze_until_ms) == Some((s as int, n as int)));
            assert(resume is None ==> resume_instant(snooze_until_ms) is None);
        }
        let mut i: usize = 0;
        while i < starts.len()
            invariant
                0 <= i <= starts.len(),
                is_upcoming(starts@, *now, NOTIFICATION_WINDOW as int),
                snoozed == (!enabled && snooze_until_ms != 0),
                resume matches Some((s, n)) ==> resume_instant(snooze_until_ms) == Some((s as int, n as int)),
                resume is None ==> resume_instant(snooze_until_ms) is None,
                fire_dates.deep_view() == notification_texts(starts@.take(i as int), snoozed, snooze_until_ms),
            decreases starts.len() - i,
        {
            let z = starts[i];
            let keep = !snoozed || match resume {
                Some((s, n)) => z.utc_secs > s || (z.utc_secs == s && z.nanos >= n),
                None => true,
            };
            let ghost before = fire_dates.deep_view();
            proof {
                reveal(Seq::filter);
                assert(starts@.take(i + 1).drop_last() =~= starts@.take(i as int));
                assert(starts@.take(i + 1).last() == z);
                assert(keep == fires_after_snooze(snoozed, snooze_until_ms, z));
            }
            if keep {
                fire_dates.push(format_utc_secs(z.utc_secs, z.nanos));
                proof {
                    assert(fire_dates.deep_view() =~= before.push(utc_secs_text(z.utc_secs, z.nanos)));
                    let f = |z: ZonedTime| fires_after_snooze(snoozed, snooze_until_ms, z);
                    let g = |z: ZonedTime| utc_secs_text(z.utc_secs, z.nanos);
                    assert(starts@.take(i + 1).filter(f) == starts@.take(i as int).filter(f).push(z));
                    assert(starts@.take(i as int).filter(f).push(z).map_values(g) =~= starts@.take(
                        i as int,
                    ).filter(f).map_values(g).push(g(z)));
                }
            } else {
                proof {
                    let f = |z: ZonedTime| fires_after_snooze(snoozed, snooze_until_ms, z);
                    assert(starts@.take(i + 1).filter(f) == starts@.take(i as int).filter(f));
                }
            }
            i = i + 1;
        }
        proof {
            assert(starts@.take(starts.len() as int) =~= starts@);
        }
    }
    if !enabled {
        return Some(IosPlan { clear_notifications: clear, fire_dates, end_live_activity: true, live_activity: None });
    }
    let next_break_start: ZonedTime = if slot.phase == Phase::Work {
        slot.end
    } else {
        let one = upcoming_break_starts_for(now, 1, mode);
        if one.len() == 0 {
            return Some(IosPlan { clear_notifications: clear, fire_dates, end_live_activity: false, live_activity: None });
        }
        proof {
            assert(one@ =~= seq![one@[0]]);
            assert(upcoming_walk(*now, 1, mode, one@));
        }
        one[0]
    };
    if !(STAMP_MIN + 4 * 86400 <= next_break_start.utc_secs && next_break_start.utc_secs <= STAMP_MAX - 4 * 86400) {
        return Some(IosPlan { clear_notifications: clear, fire_dates, end_live_activity: false, live_activity: None });
    }
    let next_slot = match slot_for_mode(&next_break_start, mode) {
        Some(s) => s,
        None => {
            return Some(IosPlan { clear_notifications: clear, fire_dates, end_live_activity: false, live_activity: None });
        },
    };
    let phase: &'static str = if slot.phase == Phase::Break { "break" } else { "work" };
    let la = LiveActivityState {
        phase,
        phase_end: format_utc_secs(slot.end.utc_secs, slot.end.nanos),
        next_break_start: format_utc_secs(next_break_start.utc_secs, next_break_start.nanos),
        next_break_end: format_utc_secs(next_slot.end.utc_secs, next_slot.end.nanos),
        reflection_pending,
    };
    Some(IosPlan { clear_notifications: clear, fire_dates, end_live_activity: false, live_activity: Some(la) })
}

proof fn lemma_filter_from(s: Seq<ZonedTime>, pred: spec_fn(ZonedTime) -> bool)
    ensures
        forall|i: int| 0 <= i < s.filter(pred).len() ==> s.contains(#[trigger] s.filter(pred)[i]),
    decreases s.len(),
{
    reveal(Seq::filter);
    if s.len() > 0 {
        let prev = s.drop_last();
        lemma_filter_from(prev, pred);
        let sub = prev.filter(pred);
        let out = s.filter(pred);
        assert forall|i: int| 0 <= i < out.len() implies s.contains(#[trigger] out[i]) by {
            if i < sub.len() {
                assert(out[i] == sub[i]);
                assert(prev.contains(sub[i]));
                let j = choose|j: int| 0 <= j < prev.len() && prev[j] == sub[i];
                assert(s[j] == prev[j]);
            } else {
                assert(out[i] == s[s.len() - 1]);
            }
        }
    }
}

/// `text` is the printed start of a break slot of `mode` after `now`.
pub open spec fn is_break_start_text(text: Seq<char>, now: ZonedTime, mode: Mode) -> bool {
    exists|z: ZonedTime|
        #![trigger starts_break_slot(z, mode)]
        starts_break_slot(z, mode) && now.before(z) && text == utc_secs_text(z.utc_secs, z.nanos)
}

/// Every notification a pushed plan schedules fires at the start of a break
/// slot of the schedule mode in effect, after `now` -- a concentration user
/// is never notified on the normal grid.
pub proof fn lemma_fire_dates_are_break_starts_of_mode(
    p: IosPlan,
    now: ZonedTime,
    slot: Slot,
    enabled: bool,
    snooze_until_ms: i64,
    reflection_pending: bool,
    mode: Mode,
)
    requires
        plan_matches(p, now, slot, enabled, snooze_until_ms, reflection_pending, mode),
    ensures
        forall|i: int|
            0 <= i < p.fire_dates@.len() ==> is_break_start_text((#[trigger] p.fire_dates@[i])@, now, mode),
{
    if !p.clear_notifications {
        let snoozed = !enabled && snooze_until_ms != 0;
        let starts = choose|starts: Seq<ZonedTime>|
            #![trigger is_upcoming(starts, now, NOTIFICATION_WINDOW as int)]
            is_upcoming(starts, now, NOTIFICATION_WINDOW as int) && (forall|i: int|
                0 <= i < starts.len() ==> starts_break_slot(#[trigger] starts[i], mode)) && upcoming_walk(
                now,
                NOTIFICATION_WINDOW as int,
                mode,
                starts,
            ) && p.fire_dates.deep_view() == notification_texts(starts, snoozed, snooze_until_ms);
        let f = |z: ZonedTime| fires_after_snooze(snoozed, snooze_until_ms, z);
        let g = |z: ZonedTime| utc_secs_text(z.utc_secs, z.nanos);
        lemma_filter_from(starts, f);
        let kept = starts.filter(f);
        assert(notification_texts(starts, snoozed, snooze_until_ms) == kept.map_values(g));
        assert(p.fire_dates@.len() == p.fire_dates.deep_view().len());
        assert(p.fire_dates@.len() == kept.len());
        assert forall|i: int| 0 <= i < p.fire_dates@.len() implies is_break_start_text(
            (#[trigger] p.fire_dates@[i])@,
            now,
            mode,
        ) by {
            assert(p.fire_dates.deep_view()[i] == p.fire_dates@[i]@);
            assert(kept.map_values(g)[i] == g(kept[i]));
            assert(starts.contains(kept[i]));
            let j = choose|j: int| 0 <= j < starts.len() && starts[j] == kept[i];
            assert(starts_break_slot(starts[j], mode));
            assert(now.before(starts[j]));
            assert(p.fire_dates@[i]@ == utc_secs_text(starts[j].utc_secs, starts[j].nanos));
        }
    } else {
        assert(p.fire_dates@.len() == 0);
    }
}

/// During a break, the Live Activity's next break is a break start of the
/// mode strictly after `now`: the first start the walk over upcoming slots
/// finds -- not the end of the current break.
pub proof fn lemma_next_break_during_a_break(
    p: IosPlan,
    now: ZonedTime,
    slot: Slot,
    enabled: bool,
    snooze_until_ms: i64,
    reflection_pending: bool,
    mode: Mode,
)
    requires
        plan_matches(p, now, slot, enabled, snooze_until_ms, reflection_pending, mode),
        slot.phase == Phase::Break,
        p.live_activity is Some,
    ensures
        exists|b: ZonedTime|
            #![trigger starts_break_slot(b, mode)]
            starts_break_slot(b, mode) && now.before(b) && upcoming_walk(now, 1, mode, seq![b])
                && p.live_activity->0.next_break_start@ == utc_secs_text(b.utc_secs, b.nanos),
{
}

} // verus!
