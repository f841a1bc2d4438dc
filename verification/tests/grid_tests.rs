use reflectodoro::commands::reflection_slot_for;
use chrono::{DateTime, Local, NaiveDate, TimeZone, Timelike};
use reflectodoro::grid::{
    band_for, hour_start, next_work_slot_start, next_work_slot_start_iso, next_work_slot_start_iso_for,
    parse_zoned, preceding_work_slot_start, preceding_work_slot_start_iso,
    preceding_work_slot_start_iso_for, slot_for, slot_for_mode, to_rfc3339, upcoming_break_starts,
    Mode, Phase, ZonedTime,
};

fn zt(dt: DateTime<Local>) -> ZonedTime {
    ZonedTime {
        utc_secs: dt.timestamp(),
        nanos: dt.timestamp_subsec_nanos(),
        offset_secs: dt.offset().local_minus_utc(),
    }
}

fn local_dt(h: u32, m: u32) -> DateTime<Local> {
    Local.with_ymd_and_hms(2026, 8, 19, h, m, 0).unwrap()
}

fn local(h: u32, m: u32) -> ZonedTime {
    zt(local_dt(h, m))
}

fn local_hms_dt(h: u32, m: u32, s: u32) -> DateTime<Local> {
    let naive = NaiveDate::from_ymd_opt(2026, 3, 10).unwrap().and_hms_opt(h, m, s).unwrap();
    Local.from_local_datetime(&naive).earliest().unwrap()
}

fn local_hms(h: u32, m: u32, s: u32) -> ZonedTime {
    zt(local_hms_dt(h, m, s))
}

#[test]
fn work_slot_start_of_hour() {
    let slot = slot_for(&local(10, 0)).unwrap();
    assert_eq!(slot.phase, Phase::Work);
    assert_eq!(slot.start, local(10, 0));
    assert_eq!(slot.end, local(10, 25));
}

#[test]
fn work_slot_mid_range() {
    let slot = slot_for(&local(10, 24)).unwrap();
    assert_eq!(slot.phase, Phase::Work);
    assert_eq!(slot.start, local(10, 0));
    assert_eq!(slot.end, local(10, 25));
}

#[test]
fn first_break_slot() {
    let slot = slot_for(&local(10, 27)).unwrap();
    assert_eq!(slot.phase, Phase::Break);
    assert_eq!(slot.start, local(10, 25));
    assert_eq!(slot.end, local(10, 30));
}

#[test]
fn second_work_slot() {
    let slot = slot_for(&local(10, 45)).unwrap();
    assert_eq!(slot.phase, Phase::Work);
    assert_eq!(slot.start, local(10, 30));
    assert_eq!(slot.end, local(10, 55));
}

#[test]
fn concentration_bands() {
    let c = Mode::Concentration;
    let s = slot_for_mode(&local_hms(10, 24, 59), c).unwrap();
    assert_eq!((s.phase, s.start, s.end), (Phase::Work, local_hms(10, 0, 0), local_hms(10, 25, 0)));
    let s = slot_for_mode(&local_hms(10, 25, 0), c).unwrap();
    assert_eq!((s.phase, s.start, s.end), (Phase::Break, local_hms(10, 25, 0), local_hms(10, 26, 0)));
    let s = slot_for_mode(&local_hms(10, 26, 0), c).unwrap();
    assert_eq!((s.phase, s.start, s.end), (Phase::Work, local_hms(10, 26, 0), local_hms(10, 50, 0)));
    let s = slot_for_mode(&local_hms(10, 50, 0), c).unwrap();
    assert_eq!((s.phase, s.start, s.end), (Phase::Break, local_hms(10, 50, 0), local_hms(11, 0, 0)));
    let s = slot_for_mode(&local_hms(10, 59, 59), c).unwrap();
    assert_eq!(s.phase, Phase::Break);
}

#[test]
fn concentration_preceding_and_next_work_slots() {
    let c = Mode::Concentration;
    let short = slot_for_mode(&local_hms(10, 25, 10), c).unwrap().start_iso();
    assert_eq!(
        preceding_work_slot_start_iso_for(&short, c).unwrap(),
        local_hms_dt(10, 0, 0).to_rfc3339()
    );
    assert_eq!(next_work_slot_start_iso_for(&short, c).unwrap(), local_hms_dt(10, 30, 0).to_rfc3339());
    let long = slot_for_mode(&local_hms(10, 55, 0), c).unwrap().start_iso();
    assert_eq!(
        preceding_work_slot_start_iso_for(&long, c).unwrap(),
        local_hms_dt(10, 30, 0).to_rfc3339()
    );
    assert_eq!(next_work_slot_start_iso_for(&long, c).unwrap(), local_hms_dt(11, 0, 0).to_rfc3339());
}

#[test]
fn mode_parse_defaults_to_normal() {
    assert_eq!(Mode::parse("concentration"), Mode::Concentration);
    assert_eq!(Mode::parse(""), Mode::Normal);
    assert_eq!(Mode::parse("bogus"), Mode::Normal);
}

#[test]
fn preceding_work_slot_start_maps_first_break_to_top_of_hour() {
    let break_start = slot_for(&local(10, 27)).unwrap().start_iso();
    let work_start = preceding_work_slot_start_iso(&break_start).unwrap();
    assert_eq!(work_start, local_dt(10, 0).to_rfc3339());
}

#[test]
fn preceding_work_slot_start_maps_second_break_to_half_past() {
    let break_start = slot_for(&local(10, 58)).unwrap().start_iso();
    let work_start = preceding_work_slot_start_iso(&break_start).unwrap();
    assert_eq!(work_start, local_dt(10, 30).to_rfc3339());
}

#[test]
fn next_work_slot_start_maps_first_break_to_half_past() {
    let break_start = slot_for(&local(10, 27)).unwrap().start_iso();
    let work_start = next_work_slot_start_iso(&break_start).unwrap();
    assert_eq!(work_start, local_dt(10, 30).to_rfc3339());
}

#[test]
fn next_work_slot_start_maps_second_break_to_top_of_next_hour() {
    let break_start = slot_for(&local(10, 58)).unwrap().start_iso();
    let work_start = next_work_slot_start_iso(&break_start).unwrap();
    assert_eq!(work_start, local_dt(11, 0).to_rfc3339());
}

#[test]
fn upcoming_breaks_from_mid_work_slot() {
    let starts = upcoming_break_starts(&local(10, 10), 4);
    assert_eq!(starts, vec![local(10, 25), local(10, 55), local(11, 25), local(11, 55)]);
}

#[test]
fn upcoming_breaks_skip_the_break_already_in_progress() {
    let starts = upcoming_break_starts(&local(10, 27), 2);
    assert_eq!(starts, vec![local(10, 55), local(11, 25)]);
}

#[test]
fn upcoming_breaks_exclude_a_break_starting_exactly_now() {
    assert_eq!(upcoming_break_starts(&local(10, 25), 1), vec![local(10, 55)]);
}

#[test]
fn upcoming_breaks_cover_a_full_day_and_are_strictly_increasing() {
    let starts = upcoming_break_starts(&local(9, 0), 48);
    assert_eq!(starts.len(), 48);
    assert!(starts.windows(2).all(|w| w[0].is_before(&w[1])));
    assert!(starts.iter().all(|s| s.minute() == 25 || s.minute() == 55));
}

#[test]
fn upcoming_breaks_across_dst_transitions_do_not_hang_or_repeat() {
    for now in [
        Local.with_ymd_and_hms(2026, 11, 1, 0, 40, 0).unwrap(),
        Local.with_ymd_and_hms(2026, 3, 8, 1, 40, 0).unwrap(),
    ] {
        let starts = upcoming_break_starts(&zt(now), 48);
        assert_eq!(starts.len(), 48);
        assert!(starts.windows(2).all(|w| w[0].is_before(&w[1])));
    }
}

#[test]
fn second_break_slot_wraps_hour() {
    let slot = slot_for(&local(10, 58)).unwrap();
    assert_eq!(slot.phase, Phase::Break);
    assert_eq!(slot.start, local(10, 55));
    assert_eq!(slot.end, local(11, 0));
}

#[test]
fn dst_fall_back_does_not_panic_at_the_call_site() {
    let now = Local.with_ymd_and_hms(2026, 11, 1, 1, 40, 0).unwrap();
    let _ = slot_for(&zt(now));
}

#[test]
fn dst_spring_forward_does_not_panic_at_the_call_site() {
    let now = Local.with_ymd_and_hms(2026, 3, 8, 2, 44, 0).unwrap();
    let _ = slot_for(&zt(now));
}

#[test]
fn mode_names_round_trip_through_parse() {
    assert_eq!(Mode::Normal.as_str(), "normal");
    assert_eq!(Mode::Concentration.as_str(), "concentration");
    assert_eq!(Mode::parse(Mode::Concentration.as_str()), Mode::Concentration);
    assert_eq!(Mode::parse("  CONCENTRATION \n"), Mode::Concentration);
    assert_eq!(Mode::parse("Normal"), Mode::Normal);
}

#[test]
fn fixed_offset_slot_arithmetic_keeps_the_offset() {
    let z = parse_zoned("2026-09-20T10:55:00+05:30").unwrap();
    assert_eq!(z.offset_secs, 5 * 3600 + 30 * 60);
    let prev = preceding_work_slot_start(&z, Mode::Normal);
    assert_eq!(to_rfc3339(&prev), "2026-09-20T10:30:00+05:30");
    let next = next_work_slot_start(&z, Mode::Normal);
    assert_eq!(to_rfc3339(&next), "2026-09-20T11:00:00+05:30");
    let c = parse_zoned("2026-09-20T10:50:00-04:00").unwrap();
    assert_eq!(to_rfc3339(&preceding_work_slot_start(&c, Mode::Concentration)), "2026-09-20T10:30:00-04:00");
    assert_eq!(to_rfc3339(&next_work_slot_start(&c, Mode::Concentration)), "2026-09-20T11:00:00-04:00");
    assert_eq!(to_rfc3339(&hour_start(&c)), "2026-09-20T10:00:00-04:00");
}

#[test]
fn unparseable_slot_strings_give_none() {
    assert_eq!(preceding_work_slot_start_iso("not a time"), None);
    assert_eq!(next_work_slot_start_iso_for("2026-13-01T00:00:00Z", Mode::Concentration), None);
}

#[test]
fn minute_and_second_read_the_wall_clock() {
    let z = parse_zoned("2026-09-20T10:27:42+01:00").unwrap();
    assert_eq!(z.minute(), 27);
    assert_eq!(z.second(), 42);
    assert_eq!(local(10, 27).minute(), local_dt(10, 27).minute());
}

#[test]
fn a_break_reflection_is_stored_under_the_work_slot_it_follows() {
    assert_eq!(reflection_slot_for("2026-08-19T10:25:00+02:00", Mode::Normal), "2026-08-19T10:00:00+02:00");
    assert_eq!(reflection_slot_for("2026-08-19T10:55:00+02:00", Mode::Normal), "2026-08-19T10:30:00+02:00");
    assert_eq!(reflection_slot_for("2026-08-19T10:50:00+02:00", Mode::Concentration), "2026-08-19T10:30:00+02:00");
    assert_eq!(reflection_slot_for("not a time", Mode::Normal), "not a time");
}

#[test]
fn bands_tile_the_hour_and_alternate() {
    for mode in [Mode::Normal, Mode::Concentration] {
        for m in 0..60u32 {
            for sec in 0..60u32 {
                let b = band_for(mode, m, sec);
                let here = m * 60 + sec;
                assert!(b.start_min * 60 + b.start_sec <= here && here < b.end_min * 60 + b.end_sec);
                if b.end_min < 60 {
                    let next = band_for(mode, b.end_min, b.end_sec);
                    assert_eq!((next.start_min, next.start_sec), (b.end_min, b.end_sec));
                    assert_ne!(next.phase, b.phase);
                }
            }
        }
    }
}
