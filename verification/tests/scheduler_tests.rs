use chrono::{DateTime, Local, TimeZone};
use reflectodoro::grid::{Phase, ZonedTime};
use reflectodoro::scheduler::{get_snooze_until, plan_sleep, plan_tick, snooze_pomodoro, SchedulerState};
use reflectodoro::state::RuntimeFlags;

fn zt(dt: DateTime<Local>) -> ZonedTime {
    ZonedTime { utc_secs: dt.timestamp(), nanos: dt.timestamp_subsec_nanos(), offset_secs: dt.offset().local_minus_utc() }
}

fn at(h: u32, m: u32, s: u32) -> ZonedTime {
    zt(Local.with_ymd_and_hms(2026, 8, 19, h, m, s).unwrap())
}

#[test]
fn the_first_tick_acts_on_the_current_phase_and_then_waits_for_a_change() {
    let mut st = SchedulerState::new();
    let mut flags = RuntimeFlags::new();
    let p = plan_tick(&mut st, &mut flags, &at(10, 26, 0)).unwrap();
    assert_eq!(p.act_on, Some(Phase::Break));
    let p = plan_tick(&mut st, &mut flags, &at(10, 27, 0)).unwrap();
    assert_eq!(p.act_on, None);
    let p = plan_tick(&mut st, &mut flags, &at(10, 31, 0)).unwrap();
    assert_eq!(p.act_on, Some(Phase::Work));
}

#[test]
fn nothing_is_acted_on_while_pomodoro_is_off() {
    let mut st = SchedulerState::new();
    let mut flags = RuntimeFlags::new();
    flags.apply_pomodoro_enabled(false);
    let p = plan_tick(&mut st, &mut flags, &at(10, 26, 0)).unwrap();
    assert_eq!(p.act_on, None);
    assert_eq!(st.last_phase, Some(Phase::Break));
}

#[test]
fn an_expired_snooze_resumes_and_reacts_to_the_current_break() {
    let mut st = SchedulerState::new();
    let mut flags = RuntimeFlags::new();
    let now = at(10, 26, 0);
    let info = snooze_pomodoro(&mut flags, &now, 5);
    assert_eq!(info.minutes, 30);
    assert!(!flags.pomodoro_enabled);
    st.last_phase = Some(Phase::Break);
    let early = plan_tick(&mut st, &mut flags, &at(10, 40, 0)).unwrap();
    assert!(!early.resumed);
    assert_eq!(early.act_on, None);
    let later = plan_tick(&mut st, &mut flags, &at(10, 56, 0)).unwrap();
    assert!(later.resumed);
    assert!(flags.pomodoro_enabled);
    assert_eq!(flags.snooze_until_ms, 0);
    assert_eq!(later.act_on, Some(Phase::Break));
}

#[test]
fn a_long_suspend_forces_a_recheck_and_past_the_grace_closes_the_overlay() {
    let mut st = SchedulerState::new();
    let mut flags = RuntimeFlags::new();
    let t0 = at(10, 26, 0);
    plan_tick(&mut st, &mut flags, &t0).unwrap();
    st.expected_wake_ns = Some((t0.utc_secs as i128) * 1_000_000_000);
    let p = plan_tick(&mut st, &mut flags, &at(10, 29, 0)).unwrap();
    assert!(!p.force_close_stale);
    assert_eq!(p.act_on, Some(Phase::Break));
    st.expected_wake_ns = Some((t0.utc_secs as i128) * 1_000_000_000);
    let q = plan_tick(&mut st, &mut flags, &at(10, 32, 0)).unwrap();
    assert!(q.force_close_stale);
    assert_eq!(q.act_on, Some(Phase::Work));
    st.expected_wake_ns = Some((at(10, 31, 30).utc_secs as i128) * 1_000_000_000);
    let r = plan_tick(&mut st, &mut flags, &at(10, 32, 10)).unwrap();
    assert!(!r.force_close_stale);
    assert_eq!(r.act_on, None);
}

#[test]
fn sleeps_run_to_the_slot_end_and_are_capped_while_snoozed() {
    let mut st = SchedulerState::new();
    let mut flags = RuntimeFlags::new();
    let now = at(10, 10, 0);
    let end = at(10, 25, 0);
    let d = plan_sleep(&mut st, &flags, &end, &now, None);
    assert_eq!(d, 15 * 60 * 1_000_000_000);
    assert_eq!(st.expected_wake_ns, Some((end.utc_secs as i128) * 1_000_000_000));
    assert_eq!(plan_sleep(&mut st, &flags, &now, &end, None), 1_000_000_000);
    assert_eq!(plan_sleep(&mut st, &flags, &end, &now, Some(20_000_000_000)), 20_000_000_000);
    snooze_pomodoro(&mut flags, &now, 60);
    assert_eq!(plan_sleep(&mut st, &flags, &end, &now, None), 30_000_000_000);
}

#[test]
fn a_pending_snooze_is_restored_and_a_cleared_one_is_not() {
    let mut flags = RuntimeFlags::new();
    assert!(get_snooze_until(&flags).is_none());
    let now = at(9, 0, 0);
    let info = snooze_pomodoro(&mut flags, &now, 45);
    let restored = get_snooze_until(&flags).unwrap();
    assert_eq!(restored.minutes, 45);
    assert_eq!(restored.resume_at, info.resume_at);
    let expected = (Local.with_ymd_and_hms(2026, 8, 19, 9, 45, 0).unwrap()).to_rfc3339();
    assert_eq!(info.resume_at, expected);
    flags.apply_pomodoro_enabled(true);
    assert!(get_snooze_until(&flags).is_none());
}
