use chrono::{FixedOffset, Local, TimeZone};
use reflectodoro::grid::{collect_break_start, resolve_from_lookups, upcoming_from_answers, StepAnswers, slot_for, slot_from_lookups, LocalLookup, Mode, Phase, Slot, ZonedTime};
use reflectodoro::ios::{refresh_for_slot, wake, IosRefreshState};
use reflectodoro::scheduler::{tick_for_slot, SchedulerState};
use reflectodoro::state::RuntimeFlags;

/// A wall-clock reading of 2026-08-19 at +02:00, as a `ZonedTime`.
fn at(h: u32, m: u32, s: u32) -> ZonedTime {
    let dt = FixedOffset::east_opt(7200).unwrap().with_ymd_and_hms(2026, 8, 19, h, m, s).unwrap();
    ZonedTime { utc_secs: dt.timestamp(), nanos: 0, offset_secs: 7200 }
}

/// The same reading in local seconds.
fn naive(h: u32, m: u32) -> i64 {
    at(h, m, 0).utc_secs + 7200
}

#[test]
fn a_single_reading_resolves_at_its_offset() {
    let z = resolve_from_lookups(naive(10, 25), &vec![LocalLookup::Single(7200)]).unwrap();
    assert_eq!(z, at(10, 25, 0));
}

/// A wall-clock reading in local seconds (the reading itself, read as UTC).
fn ny_naive(y: i32, mo: u32, d: u32, h: u32, mi: u32) -> i64 {
    chrono::NaiveDate::from_ymd_opt(y, mo, d).unwrap().and_hms_opt(h, mi, 0).unwrap().and_utc().timestamp()
}

#[test]
fn resolve_local_picks_earlier_instant_for_ambiguous_fall_back_time() {
    // New York falls back from 02:00 EDT to 01:00 EST on 2026-11-01, so
    // local 01:30 occurs twice: at UTC-4 (EDT) and at UTC-5 (EST); the zone
    // reports them in that order.
    let naive = ny_naive(2026, 11, 1, 1, 30);
    let resolved = resolve_from_lookups(naive, &vec![LocalLookup::Ambiguous(-4 * 3600, -5 * 3600)]).unwrap();
    assert_eq!(resolved.utc_secs + resolved.offset_secs as i64, naive);
    assert_eq!(resolved.offset_secs, -4 * 3600);
}

#[test]
fn resolve_local_walks_forward_past_nonexistent_spring_forward_time() {
    // New York springs forward from 02:00 EST straight to 03:00 EDT on
    // 2026-03-08: the readings 02:30 to 02:59 do not happen, 03:00 does, at
    // UTC-4.
    let naive = ny_naive(2026, 3, 8, 2, 30);
    let mut looks = vec![LocalLookup::Missing; 30];
    looks.push(LocalLookup::Single(-4 * 3600));
    let resolved = resolve_from_lookups(naive, &looks).unwrap();
    let reading = resolved.utc_secs + resolved.offset_secs as i64;
    assert!(reading >= naive);
    assert!(reading < ny_naive(2026, 3, 8, 3, 1));
    assert_eq!(resolved.offset_secs, -4 * 3600);
}

#[test]
fn a_reading_in_a_gap_moves_to_the_first_real_minute() {
    let n = naive(2, 0);
    let looks = vec![LocalLookup::Missing, LocalLookup::Missing, LocalLookup::Single(10800)];
    let z = resolve_from_lookups(n, &looks).unwrap();
    assert_eq!(z.utc_secs, n + 120 - 10800);
    assert_eq!(z.offset_secs, 10800);
}

#[test]
fn a_reading_that_never_happens_resolves_to_nothing() {
    assert!(resolve_from_lookups(naive(2, 0), &vec![LocalLookup::Missing, LocalLookup::Missing]).is_none());
    assert!(resolve_from_lookups(naive(2, 0), &Vec::new()).is_none());
}

#[test]
fn the_second_break_ends_at_the_next_hour_from_the_lookups() {
    let one = vec![LocalLookup::Single(7200)];
    let s = slot_from_lookups(&at(10, 58, 0), Mode::Normal, &one, &one, 7200).unwrap();
    assert_eq!(s.phase, Phase::Break);
    assert_eq!(s.start, at(10, 55, 0));
    assert_eq!(s.end, at(11, 0, 0));
}

#[test]
fn concentration_slots_follow_the_bands_from_the_lookups() {
    let one = vec![LocalLookup::Single(7200)];
    let s = slot_from_lookups(&at(10, 25, 30), Mode::Concentration, &one, &one, 7200).unwrap();
    assert_eq!((s.phase, s.start, s.end), (Phase::Break, at(10, 25, 0), at(10, 26, 0)));
    let s = slot_from_lookups(&at(10, 26, 0), Mode::Concentration, &one, &one, 7200).unwrap();
    assert_eq!((s.phase, s.start, s.end), (Phase::Work, at(10, 26, 0), at(10, 50, 0)));
}

#[test]
fn a_slot_needs_both_readings_to_resolve() {
    let one = vec![LocalLookup::Single(7200)];
    let none = vec![LocalLookup::Missing];
    assert!(slot_from_lookups(&at(10, 10, 0), Mode::Normal, &none, &one, 7200).is_none());
    assert!(slot_from_lookups(&at(10, 10, 0), Mode::Normal, &one, &none, 7200).is_none());
}

fn work_slot() -> Slot {
    Slot { phase: Phase::Work, start: at(10, 0, 0), end: at(10, 25, 0) }
}

#[test]
fn a_tick_acts_on_a_changed_phase_and_remembers_it() {
    let mut st = SchedulerState::new();
    let mut flags = RuntimeFlags::new();
    let p = tick_for_slot(&mut st, &mut flags, &at(10, 10, 0), &work_slot());
    assert_eq!(p.act_on, Some(Phase::Work));
    assert_eq!(p.slot, work_slot());
    assert!(!p.resumed && !p.force_close_stale);
    assert_eq!(st.last_phase, Some(Phase::Work));
    let p = tick_for_slot(&mut st, &mut flags, &at(10, 11, 0), &work_slot());
    assert_eq!(p.act_on, None);
}

#[test]
fn a_long_oversleep_forces_the_phase_and_closes_a_stale_overlay() {
    let mut st = SchedulerState::new();
    let mut flags = RuntimeFlags::new();
    tick_for_slot(&mut st, &mut flags, &at(10, 10, 0), &work_slot());
    let now = at(10, 20, 0);
    st.expected_wake_ns = Some((now.utc_secs as i128 - 600) * 1_000_000_000);
    let p = tick_for_slot(&mut st, &mut flags, &now, &work_slot());
    assert_eq!(p.act_on, Some(Phase::Work));
    assert!(p.force_close_stale);
}

#[test]
fn a_wake_pushes_again_although_nothing_changed() {
    let now = slot_now();
    let slot = slot_for(&now).unwrap();
    let mut st = IosRefreshState::new();
    assert!(refresh_for_slot(&mut st, &now, true, 0, false, Mode::Normal, &slot).is_some());
    assert!(!st.force);
    assert!(refresh_for_slot(&mut st, &now, true, 0, false, Mode::Normal, &slot).is_none());
    wake(&mut st);
    assert!(refresh_for_slot(&mut st, &now, true, 0, false, Mode::Normal, &slot).is_some());
    assert!(refresh_for_slot(&mut st, &now, true, 0, false, Mode::Normal, &slot).is_none());
    assert!(refresh_for_slot(&mut st, &now, true, 0, true, Mode::Normal, &slot).is_some());
}

fn slot_now() -> ZonedTime {
    let dt = Local.with_ymd_and_hms(2026, 8, 19, 10, 10, 0).unwrap();
    ZonedTime { utc_secs: dt.timestamp(), nanos: 0, offset_secs: dt.offset().local_minus_utc() }
}

#[test]
fn the_upcoming_walk_keeps_only_fresh_break_starts_after_now() {
    let now = at(10, 27, 0);
    let mut out = Vec::new();
    let current = Slot { phase: Phase::Break, start: at(10, 25, 0), end: at(10, 30, 0) };
    assert!(!collect_break_start(&mut out, &now, &current));
    let work = Slot { phase: Phase::Work, start: at(10, 30, 0), end: at(10, 55, 0) };
    assert!(!collect_break_start(&mut out, &now, &work));
    let next = Slot { phase: Phase::Break, start: at(10, 55, 0), end: at(11, 0, 0) };
    assert!(collect_break_start(&mut out, &now, &next));
    assert!(!collect_break_start(&mut out, &now, &next));
    assert_eq!(out, vec![at(10, 55, 0)]);
}

fn fixed_zone(offset: i32, steps: usize) -> Vec<StepAnswers> {
    (0..steps)
        .map(|_| StepAnswers {
            start: vec![LocalLookup::Single(offset)],
            end: vec![LocalLookup::Single(offset)],
            end_offset: offset,
            step_offset: offset,
        })
        .collect()
}

#[test]
fn the_walk_skips_the_break_in_progress_and_lists_the_next_ones() {
    let zone = fixed_zone(7200, 48);
    assert_eq!(upcoming_from_answers(&at(10, 27, 0), 2, Mode::Normal, &zone), vec![at(10, 55, 0), at(11, 25, 0)]);
    assert_eq!(upcoming_from_answers(&at(10, 25, 0), 1, Mode::Normal, &zone), vec![at(10, 55, 0)]);
    assert_eq!(
        upcoming_from_answers(&at(10, 10, 0), 4, Mode::Normal, &zone),
        vec![at(10, 25, 0), at(10, 55, 0), at(11, 25, 0), at(11, 55, 0)]
    );
    assert_eq!(
        upcoming_from_answers(&at(10, 20, 0), 3, Mode::Concentration, &zone),
        vec![at(10, 25, 0), at(10, 50, 0), at(11, 25, 0)]
    );
}

#[test]
fn the_walk_stops_where_the_zone_gives_no_answer() {
    let mut zone = fixed_zone(7200, 2);
    zone[1].start = vec![LocalLookup::Missing];
    // The first slot (work to 10:25) resolves; the next reading does not.
    assert_eq!(upcoming_from_answers(&at(10, 10, 0), 3, Mode::Normal, &zone), Vec::<ZonedTime>::new());
    // Fewer answers than steps: the walk goes as far as the answers go.
    let zone = fixed_zone(7200, 3);
    assert_eq!(upcoming_from_answers(&at(10, 10, 0), 5, Mode::Normal, &zone), vec![at(10, 25, 0)]);
}
