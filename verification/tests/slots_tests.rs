use reflectodoro::slots::{
    canonical_iso, is_skip_only, previous_slot_iso, split_reflection_for_slots, MissedSlotWalk,
    WalkStep,
};

fn slots(n: usize) -> Vec<String> {
    (0..n).map(|i| format!("slot-{i}")).collect()
}

#[test]
fn single_slot_never_splits() {
    assert_eq!(split_reflection_for_slots("line one\nline two", &slots(1)), None);
}

#[test]
fn matching_line_count_splits_in_order() {
    let covered = slots(3);
    assert_eq!(
        split_reflection_for_slots("first\nsecond\nthird", &covered),
        Some(vec!["first".to_string(), "second".to_string(), "third".to_string()]),
    );
}

#[test]
fn blank_lines_are_not_counted_as_rows() {
    let covered = slots(2);
    assert_eq!(
        split_reflection_for_slots("first\n\nsecond\n", &covered),
        Some(vec!["first".to_string(), "second".to_string()]),
    );
}

#[test]
fn mismatched_line_count_falls_back_to_none() {
    let covered = slots(3);
    assert_eq!(split_reflection_for_slots("only one line", &covered), None);
    assert_eq!(split_reflection_for_slots("one\ntwo", &covered), None);
    assert_eq!(split_reflection_for_slots("one\ntwo\nthree\nfour", &covered), None);
}

#[test]
fn skip_only_previews_are_hidden() {
    assert!(is_skip_only(""));
    assert!(is_skip_only("  \n "));
    assert!(is_skip_only(" SkIp "));
    assert!(!is_skip_only("skip lunch"));
}

#[test]
fn slot_keys_are_canonical_utc_milliseconds() {
    assert_eq!(canonical_iso("2026-09-20T10:30:00+05:30").unwrap(), "2026-09-20T05:00:00.000Z");
    assert_eq!(previous_slot_iso("2026-09-20T10:30:00+05:30").unwrap(), "2026-09-20T04:30:00.000Z");
    assert_eq!(canonical_iso("garbage"), None);
}

#[test]
fn the_walk_collects_uncovered_slots_oldest_first() {
    let mut w = MissedSlotWalk::start("2026-09-20T11:00:00Z", "2026-09-20T09:45:00.000Z");
    let mut asked = Vec::new();
    loop {
        match w.next_step() {
            WalkStep::CheckCovered(prev) => {
                asked.push(prev.clone());
                let covered = prev == "2026-09-20T09:30:00.000Z";
                w.record(prev, Some(covered));
            }
            WalkStep::Finished => break,
        }
    }
    assert_eq!(
        w.into_slots(),
        vec!["2026-09-20T10:00:00.000Z".to_string(), "2026-09-20T10:30:00.000Z".to_string(), "2026-09-20T11:00:00.000Z".to_string()]
    );
    assert_eq!(asked.len(), 2);
}

#[test]
fn the_walk_stops_at_the_lookback_cap_and_on_errors() {
    let mut w = MissedSlotWalk::start("2026-09-20T11:00:00Z", "2020-01-01T00:00:00Z");
    loop {
        match w.next_step() {
            WalkStep::CheckCovered(prev) => w.record(prev, Some(false)),
            WalkStep::Finished => break,
        }
    }
    assert_eq!(w.into_slots().len(), 97);
    let mut e = MissedSlotWalk::start("2026-09-20T11:00:00Z", "2020-01-01T00:00:00Z");
    if let WalkStep::CheckCovered(prev) = e.next_step() {
        e.record(prev, None);
    }
    assert!(matches!(e.next_step(), WalkStep::Finished));
    assert_eq!(e.into_slots().len(), 1);
    let bad = MissedSlotWalk::start("not a slot", "2020-01-01T00:00:00Z");
    assert_eq!(bad.into_slots(), vec!["not a slot".to_string()]);
}
