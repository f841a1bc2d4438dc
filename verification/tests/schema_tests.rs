use reflectodoro::schema::{check_objects, check_schema, check_setting, check_table, ColumnInfo, SchemaError};

fn cols(spec: &[(&str, &str)]) -> Vec<ColumnInfo> {
    spec.iter().map(|(n, t)| ColumnInfo { name: n.to_string(), decl_type: t.to_string() }).collect()
}

fn incompatible(r: Result<(), SchemaError>) -> String {
    match r {
        Err(SchemaError::Incompatible(m)) => m,
        other => panic!("expected Incompatible, got {other:?}"),
    }
}

#[test]
fn a_missing_table_or_column_is_named() {
    assert_eq!(incompatible(check_table(0, &vec![])), "missing table `reflection`");
    let c = cols(&[("id", "INTEGER"), ("created_at", "TEXT"), ("text", "TEXT")]);
    assert_eq!(incompatible(check_table(0, &c)), "table `reflection` is missing column `slot_start_at`");
    let full = cols(&[("id", ""), ("created_at", ""), ("slot_start_at", ""), ("text", ""), ("updated_at", ""), ("rev", "")]);
    assert!(check_table(0, &full).is_ok());
}

#[test]
fn wellness_checks_reject_the_removed_column_and_stale_types() {
    let base = [("id", "INTEGER"), ("slot_start_at", "TEXT"), ("relaxed_eyes", "TEXT"), ("exercise", "text"), ("drank_water", "TEXT"), ("washroom", "TEXT"), ("created_at", "TEXT"), ("rev", "INTEGER")];
    assert!(check_table(4, &cols(&base)).is_ok());
    let mut with_old = base.to_vec();
    with_old.push(("reflection_id", "INTEGER"));
    assert_eq!(incompatible(check_table(4, &cols(&with_old))), "table `wellness_check` still has the removed column `reflection_id`");
    let mut stale = base.to_vec();
    stale[3] = ("exercise", "INTEGER");
    assert_eq!(incompatible(check_table(4, &cols(&stale))), "column `wellness_check.exercise` is `INTEGER`, expected `TEXT`");
}

#[test]
fn indexes_triggers_and_flags_are_checked() {
    assert_eq!(incompatible(check_objects(0, &vec![])), "missing index `idx_reflection_slot_start_at`");
    assert_eq!(incompatible(check_objects(1, &vec!["trg_reflection_rev_insert".to_string()])), "missing trigger `trg_reflection_rev_update`");
    assert!(check_setting(0, Some("true")).is_ok());
    assert_eq!(incompatible(check_setting(1, Some("false"))), "setting `screen_time_encryption_migrated` is `false`, expected `true` -- a one-time data pass never finished");
    assert_eq!(incompatible(check_setting(3, None)), "setting `paired_device_encryption_migrated` is missing, expected `true` -- a one-time data pass never finished");
}

#[test]
fn schema_errors_read_as_their_kind() {
    assert_eq!(SchemaError::Unavailable("locked".to_string()).message(), "database unavailable: locked");
    assert_eq!(SchemaError::Incompatible("x".to_string()).message(), "database shape is not current: x");
}

fn named(names: &[&str]) -> Vec<ColumnInfo> {
    names.iter().map(|n| ColumnInfo { name: n.to_string(), decl_type: "TEXT".to_string() }).collect()
}

fn current_tables() -> Vec<Vec<ColumnInfo>> {
    vec![
        named(&["id", "created_at", "slot_start_at", "text", "updated_at", "rev"]),
        named(&["date", "content", "updated_at", "rev"]),
        named(&["date", "content", "updated_at", "rev"]),
        named(&["key", "value"]),
        named(&["id", "slot_start_at", "relaxed_eyes", "exercise", "drank_water", "washroom", "created_at", "rev"]),
        named(&["id", "app_id", "platform", "device_name", "started_at", "ended_at", "display_name", "app_id_hash", "rev"]),
        named(&["id", "name", "start_time", "end_time", "text", "created_at", "updated_at", "rev"]),
        named(&["device_id", "name", "platform", "shared_key", "paired_at", "last_sync_at", "auto_sync_enabled"]),
        named(&["device_id", "table_name", "last_rev"]),
        named(&["date", "count"]),
    ]
}

#[test]
fn the_whole_schema_check_reports_the_first_failure_in_order() {
    let settings = vec![Some("true".to_string()); 4];
    let mut tables = current_tables();
    tables[2] = vec![];
    tables[4].push(ColumnInfo { name: "reflection_id".to_string(), decl_type: "INTEGER".to_string() });
    assert_eq!(incompatible(check_schema(&tables, &vec![], &vec![], &settings)), "missing table `not_to_do_list`");
    let tables = current_tables();
    let err = incompatible(check_schema(&tables, &vec![], &vec![], &settings));
    assert!(err.starts_with("missing index `"), "{err}");
}
