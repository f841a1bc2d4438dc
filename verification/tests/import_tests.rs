use reflectodoro::import::{
    group_reflection_rows, group_wellness_rows, import_result, max_string, merge_day_content,
    min_string, plan_reflection_slot, plan_wellness_slot, replace_mode_wipes, ExistingRow,
    ImportData, ImportMode, ImportReflectionRow, ImportWellnessCheckRow, SlotWrite,
};

fn refl(slot: &str, text: &str, created: &str, updated: Option<&str>) -> ImportReflectionRow {
    ImportReflectionRow {
        created_at: created.to_string(),
        slot_start_at: slot.to_string(),
        text: text.to_string(),
        updated_at: updated.map(|u| u.to_string()),
    }
}

fn wellness(slot: &str, created: &str) -> ImportWellnessCheckRow {
    ImportWellnessCheckRow {
        slot_start_at: slot.to_string(),
        relaxed_eyes: 1,
        exercise: 0,
        drank_water: 1,
        washroom: 0,
        created_at: created.to_string(),
    }
}

fn existing(id: i64, value: &str) -> ExistingRow {
    ExistingRow { id, value: value.to_string() }
}

#[test]
fn reflection_rows_group_by_slot_in_first_seen_order_without_ignorable_rows() {
    let rows = vec![
        refl("s2", "B", "t1", None),
        refl("s1", "A", "t2", None),
        refl("s2", "skip", "t3", None),
        refl("s2", "C", "t4", None),
        refl("s3", "  \n", "t5", None),
    ];
    let groups = group_reflection_rows(&rows);
    let shape: Vec<(String, Vec<usize>)> = groups.into_iter().map(|g| (g.slot, g.members)).collect();
    assert_eq!(shape, vec![("s2".to_string(), vec![0, 3]), ("s1".to_string(), vec![1])]);
}

#[test]
fn duplicate_existing_rows_collapse_into_the_first_survivor() {
    let rows = vec![refl("s", "New line", "2026-01-01T10:00:00.000Z", Some("2026-01-02T00:00:00.000Z"))];
    let ex = vec![existing(4, "Old\nshared"), existing(9, "SHARED\nmore")];
    let plan = plan_reflection_slot(&rows, &vec![0], &ex);
    assert_eq!(plan.final_text, "Old\nshared\nmore\nNew line");
    assert_eq!(plan.final_updated_at, "2026-01-02T00:00:00.000Z");
    assert!(plan.merged);
    match plan.write {
        SlotWrite::Update { survivor_id, delete_ids } => {
            assert_eq!(survivor_id, 4);
            assert_eq!(delete_ids, vec![9]);
        }
        SlotWrite::Insert { .. } => panic!("expected an update"),
    }
}

#[test]
fn a_new_slot_is_created_at_its_earliest_import() {
    let rows = vec![
        refl("s", "A", "2026-01-01T10:05:00.000Z", None),
        refl("s", "a\nC", "2026-01-01T10:01:00.000Z", Some("2026-01-03T00:00:00.000Z")),
    ];
    let plan = plan_reflection_slot(&rows, &vec![0, 1], &vec![]);
    assert_eq!(plan.final_text, "A\nC");
    assert_eq!(plan.final_updated_at, "2026-01-03T00:00:00.000Z");
    assert!(plan.merged);
    match plan.write {
        SlotWrite::Insert { created_at } => assert_eq!(created_at, "2026-01-01T10:01:00.000Z"),
        SlotWrite::Update { .. } => panic!("expected an insert"),
    }
    let single = plan_reflection_slot(&rows, &vec![0], &vec![]);
    assert!(!single.merged);
    assert_eq!(single.final_updated_at, "2026-01-01T10:05:00.000Z");
}

#[test]
fn the_earliest_wellness_check_wins_and_ties_keep_the_existing_row() {
    let rows = vec![wellness("s", "2026-01-01T10:05:00Z"), wellness("s", "2026-01-01T10:02:00Z"), wellness("s", "2026-01-01T10:02:00Z")];
    let all = vec![0, 1, 2];
    let win = plan_wellness_slot(&rows, &all, &vec![existing(7, "2026-01-01T10:03:00Z"), existing(8, "2026-01-01T10:09:00Z")]);
    assert_eq!(win.insert_row, Some(1));
    assert_eq!(win.delete_ids, vec![7, 8]);
    assert_eq!(win.duplicates, 2);
    let tie = plan_wellness_slot(&rows, &all, &vec![existing(7, "2026-01-01T10:02:00Z"), existing(8, "2026-01-01T10:09:00Z")]);
    assert_eq!(tie.insert_row, None);
    assert_eq!(tie.delete_ids, vec![8]);
    assert_eq!(tie.duplicates, 3);
    let fresh = plan_wellness_slot(&rows, &all, &vec![]);
    assert_eq!(fresh.insert_row, Some(1));
    assert_eq!(fresh.delete_ids, Vec::<i64>::new());
    assert_eq!(fresh.duplicates, 2);
}

#[test]
fn wellness_rows_group_by_slot() {
    let rows = vec![wellness("a", "1"), wellness("b", "2"), wellness("a", "3")];
    let shape: Vec<(String, Vec<usize>)> = group_wellness_rows(&rows).into_iter().map(|g| (g.slot, g.members)).collect();
    assert_eq!(shape, vec![("a".to_string(), vec![0, 2]), ("b".to_string(), vec![1])]);
}

#[test]
fn day_rows_merge_in_merge_mode_and_overwrite_otherwise() {
    let ex = Some("Write report\nreview PR\nreview pr".to_string());
    assert_eq!(merge_day_content(&ex, "Review PR\nShip it", ImportMode::Merge), "Write report\nreview PR\nShip it");
    assert_eq!(merge_day_content(&ex, "Only this", ImportMode::Replace), "Only this");
    assert_eq!(merge_day_content(&None, "Fresh day", ImportMode::Merge), "Fresh day");
    assert_eq!(merge_day_content(&Some("a\nb".to_string()), "A\nB", ImportMode::Merge), "a\nb");
}

#[test]
fn string_max_and_min_are_lexicographic() {
    let v = vec!["b".to_string(), "ab".to_string(), "c".to_string(), "a".to_string()];
    assert_eq!(max_string(&v), "c");
    assert_eq!(min_string(&v), "a");
    assert_eq!(max_string(&vec![]), "");
}

#[test]
fn replace_mode_wipes_settings_only_when_imported() {
    assert_eq!(replace_mode_wipes(false), vec!["wellness_check", "reflection", "daily_task_list", "not_to_do_list", "screen_time_session"]);
    assert_eq!(replace_mode_wipes(true).len(), 6);
}

#[test]
fn the_result_counts_what_was_imported() {
    let data = ImportData {
        reflection: vec![refl("s", "A", "t", None)],
        daily_task_list: vec![],
        not_to_do_list: vec![],
        app_setting: vec![],
        wellness_check: vec![wellness("s", "t"), wellness("s", "u")],
        screen_time_session: vec![],
    };
    let r = import_result(&data, false, 1, 0, 1);
    assert_eq!((r.reflection_count, r.wellness_check_count, r.setting_count, r.merged_slot_count, r.wellness_check_duplicate_count), (1, 2, 0, 1, 1));
}
