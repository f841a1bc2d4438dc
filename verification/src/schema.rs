//! The check that an existing database already has this build's final
//! shape: every table with its columns, no removed column, the declared
//! types that matter, every index and trigger, and the one-time data passes
//! all finished. The database is read outside; what it holds comes in
//! here, and the first failing check is reported by name.
use vstd::prelude::*;

use crate::text::{concat, eq_ignore_ascii_case, eq_ignore_ascii_case_spec};

verus! {

/// Why the schema check failed, by what the user can do about it.
#[derive(Clone, Debug)]
pub enum SchemaError {
    /// The database could not be opened or inspected at all.
    Unavailable(String),
    /// The database opened, but its shape predates this build.
    Incompatible(String),
}

impl SchemaError {
    /// The text the error is shown with.
    pub fn message(&self) -> (r: String)
        ensures
            self matches SchemaError::Unavailable(m) ==> r@ == "database unavailable: "@ + m@,
            self matches SchemaError::Incompatible(m) ==> r@ == "database shape is not current: "@ + m@,
    {
        match self {
            SchemaError::Unavailable(m) => concat("database unavailable: ", m.as_str()),
            SchemaError::Incompatible(m) => concat("database shape is not current: ", m.as_str()),
        }
    }
}

/// One column as `PRAGMA table_info` reports it.
#[derive(Clone, Debug)]
pub struct ColumnInfo {
    pub name: String,
    pub decl_type: String,
}

pub open spec fn table_names_spec() -> Seq<Seq<char>> {
    seq![
        "reflection"@,
        "daily_task_list"@,
        "not_to_do_list"@,
        "app_setting"@,
        "wellness_check"@,
        "screen_time_session"@,
        "bulk_edit_preset"@,
        "paired_device"@,
        "sync_cursor"@,
        "breakit_daily_use"@,
    ]
}

/// The columns every table must have.
pub open spec fn table_columns_spec(t: int) -> Seq<Seq<char>> {
    if t == 0 {
        seq!["id"@, "created_at"@, "slot_start_at"@, "text"@, "updated_at"@, "rev"@]
    } else if t == 1 || t == 2 {
        seq!["date"@, "content"@, "updated_at"@, "rev"@]
    } else if t == 3 {
        seq!["key"@, "value"@]
    } else if t == 4 {
        seq![
            "id"@,
            "slot_start_at"@,
            "relaxed_eyes"@,
            "exercise"@,
            "drank_water"@,
            "washroom"@,
            "created_at"@,
            "rev"@,
        ]
    } else if t == 5 {
        seq![
            "id"@,
            "app_id"@,
            "platform"@,
            "device_name"@,
            "started_at"@,
            "ended_at"@,
            "display_name"@,
            "app_id_hash"@,
            "rev"@,
        ]
    } else if t == 6 {
        seq!["id"@, "name"@, "start_time"@, "end_time"@, "text"@, "created_at"@, "updated_at"@, "rev"@]
    } else if t == 7 {
        seq![
            "device_id"@,
            "name"@,
            "platform"@,
            "shared_key"@,
            "paired_at"@,
            "last_sync_at"@,
            "auto_sync_enabled"@,
        ]
    } else if t == 8 {
        seq!["device_id"@, "table_name"@, "last_rev"@]
    } else {
        seq!["date"@, "count"@]
    }
}

/// Columns of `wellness_check` whose declared type must be TEXT.
pub open spec fn typed_columns_spec() -> Seq<Seq<char>> {
    seq!["relaxed_eyes"@, "exercise"@, "drank_water"@, "washroom"@]
}

pub open spec fn index_names_spec() -> Seq<Seq<char>> {
    seq![
        "idx_reflection_slot_start_at"@,
        "idx_reflection_rev"@,
        "idx_daily_task_list_rev"@,
        "idx_not_to_do_list_rev"@,
        "idx_wellness_check_slot_start_at"@,
        "idx_wellness_check_rev"@,
        "idx_screen_time_session_started_at"@,
        "idx_screen_time_session_dedupe"@,
        "idx_screen_time_session_rev"@,
        "idx_bulk_edit_preset_rev"@,
    ]
}

pub open spec fn trigger_names_spec() -> Seq<Seq<char>> {
    seq![
        "trg_reflection_rev_insert"@,
        "trg_reflection_rev_update"@,
        "trg_daily_task_list_rev_insert"@,
        "trg_daily_task_list_rev_update"@,
        "trg_not_to_do_list_rev_insert"@,
        "trg_not_to_do_list_rev_update"@,
        "trg_wellness_check_rev_insert"@,
        "trg_wellness_check_rev_update"@,
        "trg_screen_time_session_rev_insert"@,
        "trg_screen_time_session_rev_update"@,
        "trg_bulk_edit_preset_rev_insert"@,
        "trg_bulk_edit_preset_rev_update"@,
    ]
}

/// The one-time back-fill flags that must all read "true".
pub open spec fn required_true_settings_spec() -> Seq<Seq<char>> {
    seq![
        "data_encryption_migrated"@,
        "screen_time_encryption_migrated"@,
        "reflection_timestamp_encryption_migrated"@,
        "paired_device_encryption_migrated"@,
    ]
}

/// The tables, in the order they are checked.
pub fn table_names() -> (r: Vec<&'static str>)
    ensures
        r@.len() == table_names_spec().len(),
        forall|i: int| 0 <= i < r@.len() ==> (#[trigger] r@[i])@ == table_names_spec()[i],
{
    let v = vec![
        "reflection",
        "daily_task_list",
        "not_to_do_list",
        "app_setting",
        "wellness_check",
        "screen_time_session",
        "bulk_edit_preset",
        "paired_device",
        "sync_cursor",
        "breakit_daily_use",
    ];
    v
}

/// The back-fill flags, in the order they are checked.
pub fn required_true_settings() -> (r: Vec<&'static str>)
    ensures
        r@.len() == required_true_settings_spec().len(),
        forall|i: int| 0 <= i < r@.len() ==> (#[trigger] r@[i])@ == required_true_settings_spec()[i],
{
    let v = vec![
        "data_encryption_migrated",
        "screen_time_encryption_migrated",
        "reflection_timestamp_encryption_migrated",
        "paired_device_encryption_migrated",
    ];
    v
}

fn table_columns(t: usize) -> (r: Vec<&'static str>)
    requires
        t < 10,
    ensures
        r@.len() == table_columns_spec(t as int).len(),
        forall|i: int| 0 <= i < r@.len() ==> (#[trigger] r@[i])@ == table_columns_spec(t as int)[i],
{
    if t == 0 {
        vec!["id", "created_at", "slot_start_at", "text", "updated_at", "rev"]
    } else if t == 1 || t == 2 {
        vec!["date", "content", "updated_at", "rev"]
    } else if t == 3 {
        vec!["key", "value"]
    } else if t == 4 {
        vec!["id", "slot_start_at", "relaxed_eyes", "exercise", "drank_water", "washroom", "created_at", "rev"]
    } else if t == 5 {
        vec![
            "id",
            "app_id",
            "platform",
            "device_name",
            "started_at",
            "ended_at",
            "display_name",
            "app_id_hash",
            "rev",
        ]
    } else if t == 6 {
        vec!["id", "name", "start_time", "end_time", "text", "created_at", "updated_at", "rev"]
    } else if t == 7 {
        vec!["device_id", "name", "platform", "shared_key", "paired_at", "last_sync_at", "auto_sync_enabled"]
    } else if t == 8 {
        vec!["device_id", "table_name", "last_rev"]
    } else {
        vec!["date", "count"]
    }
}

pub open spec fn names_of(cols: Seq<ColumnInfo>) -> Seq<Seq<char>> {
    Seq::new(cols.len(), |i: int| cols[i].name@)
}

pub open spec fn has_name(names: Seq<Seq<char>>, x: Seq<char>) -> bool {
    exists|i: int| 0 <= i < names.len() && #[trigger] names[i] == x
}

/// `k` is the first entry of `expected` absent from `names`.
pub open spec fn first_absent(expected: Seq<Seq<char>>, names: Seq<Seq<char>>, k: int) -> bool {
    &&& 0 <= k < expected.len()
    &&& !has_name(names, expected[k])
    &&& forall|j: int| 0 <= j < k ==> has_name(names, #[trigger] expected[j])
}

pub open spec fn all_present(expected: Seq<Seq<char>>, names: Seq<Seq<char>>) -> bool {
    forall|j: int| 0 <= j < expected.len() ==> has_name(names, #[trigger] expected[j])
}

/// The index of the first column named `x`, if any.
pub open spec fn first_named(cols: Seq<ColumnInfo>, x: Seq<char>, i: int) -> bool {
    &&& 0 <= i < cols.len()
    &&& cols[i].name@ == x
    &&& forall|j: int| 0 <= j < i ==> (#[trigger] cols[j]).name@ != x
}

/// A typed column of `wellness_check` present with another declared type:
/// `k` indexes the typed list, `i` the column found for it.
pub open spec fn bad_type_at(cols: Seq<ColumnInfo>, k: int, i: int) -> bool {
    &&& 0 <= k < typed_columns_spec().len()
    &&& first_named(cols, typed_columns_spec()[k], i)
    &&& !eq_ignore_ascii_case_spec(cols[i].decl_type@, "TEXT"@)
}

pub open spec fn type_ok_at(cols: Seq<ColumnInfo>, k: int) -> bool {
    forall|i: int| first_named(cols, typed_columns_spec()[k], i) ==> eq_ignore_ascii_case_spec(
        #[trigger] cols[i].decl_type@,
        "TEXT"@,
    )
}

fn find_name(names: &Vec<String>, x: &str) -> (r: bool)
    ensures
        r == has_name(names.deep_view(), x@),
{
    let mut i: usize = 0;
    while i < names.len()
        invariant
            0 <= i <= names.len(),
            forall|j: int| 0 <= j < i ==> names.deep_view()[j] != x@,
        decreases names.len() - i,
    {
        if names[i].as_str().to_owned() == x.to_owned() {
            proof {
                assert(names.deep_view()[i as int] == x@);
            }
            return true;
        }
        i = i + 1;
    }
    proof {
        assert forall|j: int| 0 <= j < names.len() implies names.deep_view()[j] != x@ by {}
    }
    false
}

/// The first of `expected` missing from `names`, if any.
fn first_missing(expected: &Vec<&'static str>, names: &Vec<String>) -> (r: Option<usize>)
    ensures
        ({
            let ev = Seq::new(expected@.len(), |i: int| expected@[i]@);
            &&& r matches Some(k) ==> first_absent(ev, names.deep_view(), k as int)
            &&& r is None ==> all_present(ev, names.deep_view())
        }),
{
    let ghost ev = Seq::new(expected@.len(), |i: int| expected@[i]@);
    let mut k: usize = 0;
    while k < expected.len()
        invariant
            0 <= k <= expected.len(),
            ev == Seq::new(expected@.len(), |i: int| expected@[i]@),
            forall|j: int| 0 <= j < k ==> has_name(names.deep_view(), #[trigger] ev[j]),
        decreases expected.len() - k,
    {
        if !find_name(names, expected[k]) {
            return Some(k);
        }
        k = k + 1;
    }
    None
}

fn column_names(columns: &Vec<ColumnInfo>) -> (r: Vec<String>)
    ensures
        r.deep_view() == names_of(columns@),
{
    let mut out: Vec<String> = Vec::new();
    let mut i: usize = 0;
    while i < columns.len()
        invariant
            0 <= i <= columns.len(),
            out.deep_view() == names_of(columns@).take(i as int),
        decreases columns.len() - i,
    {
        let ghost before = out.deep_view();
        out.push(columns[i].name.clone());
        proof {
            assert(out.deep_view() =~= before.push(columns@[i as int].name@));
            assert(names_of(columns@).take(i + 1) =~= names_of(columns@).take(i as int).push(
                columns@[i as int].name@,
            ));
        }
        i = i + 1;
    }
    proof {
        assert(names_of(columns@).take(columns.len() as int) =~= names_of(columns@));
    }
    out
}

fn first_column_named(columns: &Vec<ColumnInfo>, x: &str) -> (r: Option<usize>)
    ensures
        r matches Some(i) ==> first_named(columns@, x@, i as int),
        r is None ==> forall|i: int| 0 <= i < columns@.len() ==> (#[trigger] columns@[i]).name@ != x@,
{
    let mut i: usize = 0;
    while i < columns.len()
        invariant
            0 <= i <= columns.len(),
            forall|j: int| 0 <= j < i ==> (#[trigger] columns@[j]).name@ != x@,
        decreases columns.len() - i,
    {
        if columns[i].name == x.to_owned() {
            return Some(i);
        }
        i = i + 1;
    }
    None
}

fn backticked(s: &str) -> (r: String)
    ensures
        r@ == "`"@ + s@ + "`"@,
{
    let a = concat("`", s);
    concat(a.as_str(), "`")
}

/// What `check_table` answers for table `t` with columns `cols`: missing
/// table, then the first missing column, then a removed column still
/// present, then a typed column with the wrong declared type; `Ok` when
/// none of these holds.
pub open spec fn table_verdict(t: int, cols: Seq<ColumnInfo>, r: Result<(), SchemaError>) -> bool {
    let table = table_names_spec()[t];
    let names = names_of(cols);
    let expected = table_columns_spec(t);
    let forbidden = table == "wellness_check"@ && has_name(names, "reflection_id"@);
    let typed = table == "wellness_check"@;
    if cols.len() == 0 {
        r matches Err(SchemaError::Incompatible(m)) && m@ =~= "missing table "@ + "`"@ + table
            + "`"@
    } else if exists|k: int| first_absent(expected, names, k) {
        exists|k: int|
            #![trigger first_absent(expected, names, k)]
            first_absent(expected, names, k) && (r matches Err(SchemaError::Incompatible(m))
                && m@ =~= "table "@ + "`"@ + table + "`"@ + " is missing column "@ + "`"@
                + expected[k] + "`"@)
    } else if forbidden {
        r matches Err(SchemaError::Incompatible(m)) && m@ =~= "table "@ + "`"@ + table + "`"@
            + " still has the removed column "@ + "`"@ + "reflection_id"@ + "`"@
    } else if typed && exists|k: int, i: int| bad_type_at(cols, k, i) {
        exists|k: int, i: int|
            #![trigger bad_type_at(cols, k, i)]
            bad_type_at(cols, k, i) && (forall|j: int|
                0 <= j < k ==> type_ok_at(cols, j)) && (r matches Err(
                SchemaError::Incompatible(m),
            ) && m@ =~= "column "@ + "`"@ + table + "."@ + typed_columns_spec()[k] + "`"@
                + " is "@ + "`"@ + cols[i].decl_type@ + "`"@ + ", expected "@ + "`"@
                + "TEXT"@ + "`"@)
    } else {
        r is Ok
    }
}

/// Table `t` has this build's shape.
pub open spec fn table_ok(t: int, cols: Seq<ColumnInfo>) -> bool {
    let names = names_of(cols);
    let wellness = table_names_spec()[t] == "wellness_check"@;
    &&& cols.len() > 0
    &&& !(exists|k: int| first_absent(table_columns_spec(t), names, k))
    &&& !(wellness && has_name(names, "reflection_id"@))
    &&& !(wellness && exists|k: int, i: int| bad_type_at(cols, k, i))
}

/// A table's verdict is `Ok` exactly when the table has its shape.
pub proof fn lemma_table_verdict_ok(t: int, cols: Seq<ColumnInfo>, r: Result<(), SchemaError>)
    requires
        table_verdict(t, cols, r),
    ensures
        r is Ok <==> table_ok(t, cols),
{
}

/// The verdict on one table (`t` indexes the checked tables), given its
/// columns: missing table, then the first missing column, then a removed
/// column still present, then a typed column with the wrong declared type.
pub fn check_table(t: usize, columns: &Vec<ColumnInfo>) -> (r: Result<(), SchemaError>)
    requires
        t < 10,
    ensures
        table_verdict(t as int, columns@, r),
{
    let tables = table_names();
    let table = tables[t];
    if columns.len() == 0 {
        let a = concat("missing table ", backticked(table).as_str());
        return Err(SchemaError::Incompatible(a));
    }
    let names = column_names(columns);
    let expected = table_columns(t);
    let ghost ev = Seq::new(expected@.len(), |i: int| expected@[i]@);
    proof {
        assert(ev =~= table_columns_spec(t as int));
    }
    match first_missing(&expected, &names) {
        Some(k) => {
            let a = concat("table ", backticked(table).as_str());
            let b = concat(a.as_str(), " is missing column ");
            let c = concat(b.as_str(), backticked(expected[k]).as_str());
            proof {
                assert(c@ =~= "table "@ + "`"@ + table@ + "`"@ + " is missing column "@ + "`"@
                    + ev[k as int] + "`"@);
            }
            return Err(SchemaError::Incompatible(c));
        },
        None => {
            proof {
                assert forall|kk: int| !first_absent(table_columns_spec(t as int), names_of(columns@), kk) by {
                    if 0 <= kk < ev.len() {
                        assert(has_name(names.deep_view(), ev[kk]));
                    }
                }
            }
        },
    }
    let is_wellness = table.to_owned() == "wellness_check".to_owned();
    if is_wellness && find_name(&names, "reflection_id") {
        let a = concat("table ", backticked(table).as_str());
        let b = concat(a.as_str(), " still has the removed column ");
        let c = concat(b.as_str(), backticked("reflection_id").as_str());
        proof {
            assert(c@ =~= "table "@ + "`"@ + table@ + "`"@ + " still has the removed column "@
                + "`"@ + "reflection_id"@ + "`"@);
        }
        return Err(SchemaError::Incompatible(c));
    }
    if is_wellness {
        proof {
            assert(!has_name(names.deep_view(), "reflection_id"@));
        }
        let typed = vec!["relaxed_eyes", "exercise", "drank_water", "washroom"];
        let mut k: usize = 0;
        while k < typed.len()
            invariant
                0 <= k <= typed.len(),
                typed@.len() == 4,
                forall|j: int| 0 <= j < 4 ==> (#[trigger] typed@[j])@ == typed_columns_spec()[j],
                forall|j: int| 0 <= j < k ==> type_ok_at(columns@, j),
                table@ == "wellness_check"@,
                t < 10,
                table@ == table_names_spec()[t as int],
                columns@.len() > 0,
                forall|kk: int| !first_absent(table_columns_spec(t as int), names_of(columns@), kk),
                !has_name(names_of(columns@), "reflection_id"@),
            decreases typed.len() - k,
        {
            match first_column_named(columns, typed[k]) {
                Some(i) => {
                    if !eq_ignore_ascii_case(columns[i].decl_type.as_str(), "TEXT") {
                        let col_ref = concat(table, ".");
                        let col_ref2 = concat(col_ref.as_str(), typed[k]);
                        let a = concat("column ", backticked(col_ref2.as_str()).as_str());
                        let b = concat(a.as_str(), " is ");
                        let c = concat(b.as_str(), backticked(columns[i].decl_type.as_str()).as_str());
                        let d = concat(c.as_str(), ", expected ");
                        let e = concat(d.as_str(), backticked("TEXT").as_str());
                        proof {
                            assert(bad_type_at(columns@, k as int, i as int));
                            assert(e@ =~= "column "@ + "`"@ + table@ + "."@ + typed_columns_spec()[k as int]
                                + "`"@ + " is "@ + "`"@ + columns@[i as int].decl_type@ + "`"@
                                + ", expected "@ + "`"@ + "TEXT"@ + "`"@);
                        }
                        return Err(SchemaError::Incompatible(e));
                    }
                    proof {
                        assert forall|ii: int| first_named(columns@, typed_columns_spec()[k as int], ii)
                            implies eq_ignore_ascii_case_spec(
                            #[trigger] columns@[ii].decl_type@,
                            "TEXT"@,
                        ) by {
                            if ii < i {
                                assert(columns@[ii].name@ != typed@[k as int]@);
                            } else if ii > i {
                                assert(columns@[i as int].name@ == typed@[k as int]@);
                            }
                        }
                    }
                },
                None => {},
            }
            k = k + 1;
        }
        proof {
            assert forall|kk: int, ii: int| !bad_type_at(columns@, kk, ii) by {
                if 0 <= kk < 4 && bad_type_at(columns@, kk, ii) {
                    assert(type_ok_at(columns@, kk));
                }
            }
        }
    }
    Ok(())
}

pub open spec fn object_names_spec(kind: u8) -> Seq<Seq<char>> {
    if kind == 0 {
        index_names_spec()
    } else {
        trigger_names_spec()
    }
}

pub open spec fn object_word(kind: u8) -> Seq<char> {
    if kind == 0 {
        "index"@
    } else {
        "trigger"@
    }
}

/// What `check_objects` answers: `Ok` when every expected index or trigger
/// is there; otherwise the first one missing, by name.
pub open spec fn objects_verdict(kind: u8, names: Seq<Seq<char>>, r: Result<(), SchemaError>) -> bool {
    &&& all_present(object_names_spec(kind), names) ==> r is Ok
    &&& !all_present(object_names_spec(kind), names) ==> exists|k: int|
        #![trigger first_absent(object_names_spec(kind), names, k)]
        first_absent(object_names_spec(kind), names, k) && (r matches Err(SchemaError::Incompatible(m))
            && m@ =~= "missing "@ + object_word(kind) + " "@ + "`"@ + object_names_spec(kind)[k] + "`"@)
}

/// The first expected index or trigger (`kind` 0: indexes, 1: triggers)
/// that the database lacks.
pub fn check_objects(kind: u8, names: &Vec<String>) -> (r: Result<(), SchemaError>)
    ensures
        objects_verdict(kind, names.deep_view(), r),
{
    let expected: Vec<&'static str> = if kind == 0 {
        vec![
            "idx_reflection_slot_start_at",
            "idx_reflection_rev",
            "idx_daily_task_list_rev",
            "idx_not_to_do_list_rev",
            "idx_wellness_check_slot_start_at",
            "idx_wellness_check_rev",
            "idx_screen_time_session_started_at",
            "idx_screen_time_session_dedupe",
            "idx_screen_time_session_rev",
            "idx_bulk_edit_preset_rev",
        ]
    } else {
        vec![
            "trg_reflection_rev_insert",
            "trg_reflection_rev_update",
            "trg_daily_task_list_rev_insert",
            "trg_daily_task_list_rev_update",
            "trg_not_to_do_list_rev_insert",
            "trg_not_to_do_list_rev_update",
            "trg_wellness_check_rev_insert",
            "trg_wellness_check_rev_update",
            "trg_screen_time_session_rev_insert",
            "trg_screen_time_session_rev_update",
            "trg_bulk_edit_preset_rev_insert",
            "trg_bulk_edit_preset_rev_update",
        ]
    };
    let what: &'static str = if kind == 0 { "index" } else { "trigger" };
    let ghost spec_expected = object_names_spec(kind);
    proof {
        assert(what@ == object_word(kind));
    }
    let ghost ev = Seq::new(expected@.len(), |i: int| expected@[i]@);
    proof {
        assert(ev =~= spec_expected);
    }
    match first_missing(&expected, names) {
        Some(k) => {
            let a = concat("missing ", what);
            let b = concat(a.as_str(), " ");
            let c = concat(b.as_str(), backticked(expected[k]).as_str());
            proof {
                assert(c@ =~= "missing "@ + what@ + " "@ + "`"@ + ev[k as int] + "`"@);
                assert(first_absent(ev, names.deep_view(), k as int));
                assert(first_absent(spec_expected, names.deep_view(), k as int));
                assert(!all_present(spec_expected, names.deep_view()));
            }
            Err(SchemaError::Incompatible(c))
        },
        None => {
            proof {
                assert(all_present(spec_expected, names.deep_view()));
            }
            Ok(())
        },
    }
}

/// What `check_setting` answers for back-fill flag `k` and its stored value:
/// `Ok` for "true", otherwise the flag, what it holds, and what it should.
pub open spec fn setting_verdict(k: int, value: Option<Seq<char>>, r: Result<(), SchemaError>) -> bool {
    let key = required_true_settings_spec()[k];
    let tail = ", expected "@ + "`"@ + "true"@ + "`"@ + " -- a one-time data pass never finished"@;
    match value {
        Some(v) => if v == "true"@ {
            r is Ok
        } else {
            r matches Err(SchemaError::Incompatible(m)) && m@ =~= "setting "@ + "`"@ + key + "`"@ + " is "@
                + "`"@ + v + "`"@ + tail
        },
        None => r matches Err(SchemaError::Incompatible(m)) && m@ =~= "setting "@ + "`"@ + key + "`"@
            + " is "@ + "missing"@ + tail,
    }
}

/// The verdict on one of the back-fill flags (`k` indexes them), given its
/// stored value.
pub fn check_setting(k: usize, value: Option<&str>) -> (r: Result<(), SchemaError>)
    requires
        k < 4,
    ensures
        setting_verdict(
            k as int,
            match value {
                Some(v) => Some(v@),
                None => None,
            },
            r,
        ),
{
    let keys = vec![
        "data_encryption_migrated",
        "screen_time_encryption_migrated",
        "reflection_timestamp_encryption_migrated",
        "paired_device_encryption_migrated",
    ];
    let key = keys[k];
    let shown: String = match value {
        Some(v) => {
            if v.to_owned() == "true".to_owned() {
                return Ok(());
            }
            backticked(v)
        },
        None => String::from_str("missing"),
    };
    let a = concat("setting ", backticked(key).as_str());
    let b = concat(a.as_str(), " is ");
    let c = concat(b.as_str(), shown.as_str());
    let d = concat(c.as_str(), ", expected ");
    let e = concat(d.as_str(), backticked("true").as_str());
    let f = concat(e.as_str(), " -- a one-time data pass never finished");
    proof {
        let tail = ", expected "@ + "`"@ + "true"@ + "`"@ + " -- a one-time data pass never finished"@;
        assert(f@ =~= "setting "@ + "`"@ + key@ + "`"@ + " is "@ + shown@ + tail);
    }
    Err(SchemaError::Incompatible(f))
}

/// The whole database has this build's shape: every table (`tables[t]`
/// holds table `t`'s columns), every index and trigger, and every back-fill
/// flag "true".
pub open spec fn schema_ok(
    tables: Seq<Seq<ColumnInfo>>,
    indexes: Seq<Seq<char>>,
    triggers: Seq<Seq<char>>,
    settings: Seq<Option<Seq<char>>>,
) -> bool {
    &&& forall|t: int| 0 <= t < 10 ==> table_ok(t, #[trigger] tables[t])
    &&& all_present(object_names_spec(0), indexes)
    &&& all_present(object_names_spec(1), triggers)
    &&& forall|k: int| 0 <= k < 4 ==> #[trigger] settings[k] == Some("true"@)
}

pub open spec fn table_columns_of(tables: Seq<Vec<ColumnInfo>>) -> Seq<Seq<ColumnInfo>> {
    Seq::new(tables.len(), |t: int| tables[t]@)
}

pub open spec fn setting_values(settings: Seq<Option<String>>) -> Seq<Option<Seq<char>>> {
    Seq::new(
        settings.len(),
        |k: int|
            match settings[k] {
                Some(v) => Some(v@),
                None => None,
            },
    )
}

/// The check of a whole database, in order: the tables, then the indexes,
/// the triggers and the back-fill flags; the first failing check answers.
/// `Ok` exactly when the database has this build's shape.
pub fn check_schema(
    tables: &Vec<Vec<ColumnInfo>>,
    indexes: &Vec<String>,
    triggers: &Vec<String>,
    settings: &Vec<Option<String>>,
) -> (r: Result<(), SchemaError>)
    requires
        tables.len() == 10,
        settings.len() == 4,
    ensures
        r is Ok <==> schema_ok(
            table_columns_of(tables@),
            indexes.deep_view(),
            triggers.deep_view(),
            setting_values(settings@),
        ),
        forall|t: int|
            0 <= t < 10 && (forall|u: int| 0 <= u < t ==> table_ok(u, #[trigger] tables@[u]@)) && !table_ok(
                t,
                #[trigger] tables@[t]@,
            ) ==> table_verdict(t, tables@[t]@, r),
        (forall|t: int| 0 <= t < 10 ==> table_ok(t, #[trigger] tables@[t]@)) && !all_present(
            object_names_spec(0),
            indexes.deep_view(),
        ) ==> objects_verdict(0, indexes.deep_view(), r),
        (forall|t: int| 0 <= t < 10 ==> table_ok(t, #[trigger] tables@[t]@)) && all_present(
            object_names_spec(0),
            indexes.deep_view(),
        ) && !all_present(object_names_spec(1), triggers.deep_view()) ==> objects_verdict(
            1,
            triggers.deep_view(),
            r,
        ),
        forall|k: int|
            0 <= k < 4 && (forall|t: int| 0 <= t < 10 ==> table_ok(t, #[trigger] tables@[t]@)) && all_present(
                object_names_spec(0),
                indexes.deep_view(),
            ) && all_present(object_names_spec(1), triggers.deep_view()) && (forall|j: int|
                0 <= j < k ==> #[trigger] setting_values(settings@)[j] == Some("true"@)) && setting_values(
                settings@,
            )[k] != Some("true"@) ==> setting_verdict(k, #[trigger] setting_values(settings@)[k], r),
{
    let ghost cols = table_columns_of(tables@);
    let ghost vals = setting_values(settings@);
    let mut t: usize = 0;
    while t < 10
        invariant
            0 <= t <= 10,
            tables.len() == 10,
            cols == table_columns_of(tables@),
            forall|u: int| 0 <= u < t ==> table_ok(u, #[trigger] tables@[u]@),
        decreases 10 - t,
    {
        let r = check_table(t, &tables[t]);
        proof {
            lemma_table_verdict_ok(t as int, tables@[t as int]@, r);
        }
        if r.is_err() {
            proof {
                assert(!schema_ok(cols, indexes.deep_view(), triggers.deep_view(), vals)) by {
                    assert(cols[t as int] == tables@[t as int]@);
                }
            }
            return r;
        }
        t = t + 1;
    }
    let ri = check_objects(0, indexes);
    if ri.is_err() {
        return ri;
    }
    let rt = check_objects(1, triggers);
    if rt.is_err() {
        return rt;
    }
    let mut k: usize = 0;
    while k < 4
        invariant
            0 <= k <= 4,
            settings.len() == 4,
            tables.len() == 10,
            vals == setting_values(settings@),
            forall|j: int| 0 <= j < k ==> #[trigger] vals[j] == Some("true"@),
            forall|u: int| 0 <= u < 10 ==> table_ok(u, #[trigger] tables@[u]@),
            all_present(object_names_spec(0), indexes.deep_view()),
            all_present(object_names_spec(1), triggers.deep_view()),
        decreases 4 - k,
    {
        let rs = match &settings[k] {
            Some(v) => check_setting(k, Some(v.as_str())),
            None => check_setting(k, None),
        };
        proof {
            assert(vals[k as int] == (match settings@[k as int] {
                Some(v) => Some(v@),
                None => None,
            }));
        }
        if rs.is_err() {
            proof {
                assert(vals[k as int] != Some("true"@));
                assert(!schema_ok(cols, indexes.deep_view(), triggers.deep_view(), vals));
            }
            return rs;
        }
        k = k + 1;
    }
    proof {
        assert forall|u: int| 0 <= u < 10 implies table_ok(u, #[trigger] cols[u]) by {
            assert(cols[u] == tables@[u]@);
        }
    }
    Ok(())
}

} // verus!
