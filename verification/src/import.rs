//! The decisions of the data import: which rows collapse into which slot,
//! what text each reflection slot ends up with, which wellness check
//! survives, and how a day's task list merges. The database work around
//! them (the transaction, the queries) runs outside and hands the rows it
//! read in here.
use vstd::prelude::*;

use crate::merge::{
    append_unique_lines_ci, append_unique_spec, concat_clean_lines, concat_lines_of,
    dedupe_first_seen_ci, dedupe_spec, join_lines, join_spec, merge_reflection_lines,
    merge_reflection_spec, is_ignorable_entry, is_ignorable_spec, line_split_trim, has_key,
    lemma_append_unique_keeps_prefix, lemma_append_unique_covers_incoming, lemma_append_unique_noop,
    lemma_append_unique_concat, lemma_append_unique_closed_form, lemma_new_lines_members,
    lemma_without_skips_append_skips, new_lines, has_real_content, is_skip_spec, without_skips,
};
use crate::text::unicode_lowercase;
use crate::text::{clean_lines, seq_lt, str_lt, lemma_seq_lt_total, lemma_seq_lt_transitive};

verus! {

#[derive(Clone, Debug)]
pub struct ImportReflectionRow {
    pub created_at: String,
    pub slot_start_at: String,
    pub text: String,
    /// Absent in older export files; `created_at` stands in for it then.
    pub updated_at: Option<String>,
}

#[derive(Clone, Debug)]
pub struct ImportWellnessCheckRow {
    pub slot_start_at: String,
    pub relaxed_eyes: i64,
    pub exercise: i64,
    pub drank_water: i64,
    pub washroom: i64,
    pub created_at: String,
}

#[derive(Clone, Debug)]
pub struct ImportTaskListRow {
    pub date: String,
    pub content: String,
    pub updated_at: String,
}

#[derive(Clone, Debug)]
pub struct ImportNotToDoRow {
    pub date: String,
    pub content: String,
    pub updated_at: String,
}

#[derive(Clone, Debug)]
pub struct ImportSettingRow {
    pub key: String,
    pub value: String,
}

#[derive(Clone, Debug)]
pub struct ImportScreenTimeSessionRow {
    pub app_id: String,
    pub display_name: String,
    pub platform: String,
    pub device_name: String,
    pub started_at: String,
    pub ended_at: String,
}

#[derive(Clone, Debug)]
pub struct ImportData {
    pub reflection: Vec<ImportReflectionRow>,
    pub daily_task_list: Vec<ImportTaskListRow>,
    pub not_to_do_list: Vec<ImportNotToDoRow>,
    pub app_setting: Vec<ImportSettingRow>,
    pub wellness_check: Vec<ImportWellnessCheckRow>,
    pub screen_time_session: Vec<ImportScreenTimeSessionRow>,
}

#[derive(Clone, Copy, Debug, PartialEq, Eq, Structural)]
pub enum ImportMode {
    Replace,
    Merge,
}

#[derive(Clone, Copy, Debug, PartialEq, Eq, Structural)]
pub struct ImportResult {
    pub reflection_count: usize,
    pub task_list_count: usize,
    pub not_to_do_list_count: usize,
    pub setting_count: usize,
    pub wellness_check_count: usize,
    pub screen_time_session_count: usize,
    /// Slot groups where more than one physical reflection row collapsed
    /// into one surviving row.
    pub merged_slot_count: usize,
    /// Imported screen-time rows skipped as already present.
    pub screen_time_duplicate_count: usize,
    /// Imported wellness checks skipped because an earlier one won their
    /// slot.
    pub wellness_check_duplicate_count: usize,
}

// ---------------------------------------------------------------------------
// Grouping by slot
// ---------------------------------------------------------------------------

/// The rows of one slot, by index into the imported rows.
#[derive(Clone, Debug)]
pub struct SlotGroup {
    pub slot: String,
    pub members: Vec<usize>,
}

/// `groups` is the grouping of the kept indices of `keys` by key, in order
/// of first appearance: every group is non-empty, its members rise and all
/// carry its key; no two groups share a key; every kept index is in a
/// group; and the groups are ordered by their first member.
pub open spec fn is_grouping(groups: Seq<SlotGroup>, keys: Seq<Seq<char>>, keep: Seq<bool>) -> bool {
    &&& forall|g: int|
        0 <= g < groups.len() ==> {
            let ms = (#[trigger] groups[g]).members@;
            &&& ms.len() > 0
            &&& forall|a: int, b: int| 0 <= a < b < ms.len() ==> ms[a] < ms[b]
            &&& forall|a: int|
                0 <= a < ms.len() ==> ms[a] < keys.len() && keep[ms[a] as int] && keys[ms[a] as int]
                    == groups[g].slot@
        }
    &&& forall|g: int, h: int|
        0 <= g < h < groups.len() ==> (#[trigger] groups[g]).slot@ != (#[trigger] groups[h]).slot@
            && groups[g].members@[0] < groups[h].members@[0]
    &&& forall|i: int|
        0 <= i < keys.len() && keep[i] ==> exists|g: int, a: int|
            0 <= g < groups.len() && 0 <= a < groups[g].members@.len() && #[trigger] groups[g].members@[a]
                == i
}

/// Index of the group with slot key `key`, if any.
fn find_group(groups: &Vec<SlotGroup>, key: &String) -> (r: Option<usize>)
    ensures
        r matches Some(g) ==> g < groups.len() && groups@[g as int].slot@ == key@,
        r is None ==> forall|g: int| 0 <= g < groups.len() ==> (#[trigger] groups@[g]).slot@ != key@,
{
    let mut i: usize = 0;
    while i < groups.len()
        invariant
            0 <= i <= groups.len(),
            forall|g: int| 0 <= g < i ==> (#[trigger] groups@[g]).slot@ != key@,
        decreases groups.len() - i,
    {
        if groups[i].slot == *key {
            return Some(i);
        }
        i = i + 1;
    }
    None
}

/// Groups the kept indices of `keys` by key, in order of first appearance
/// (the `order`/`groups` pair of the import loop).
pub fn group_by_slot(keys: &Vec<String>, keep: &Vec<bool>) -> (r: Vec<SlotGroup>)
    requires
        keys.len() == keep.len(),
    ensures
        is_grouping(r@, keys.deep_view(), keep@),
{
    let ghost ks = keys.deep_view();
    let mut groups: Vec<SlotGroup> = Vec::new();
    let mut i: usize = 0;
    while i < keys.len()
        invariant
            0 <= i <= keys.len(),
            keys.len() == keep.len(),
            ks == keys.deep_view(),
            forall|g: int|
                0 <= g < groups.len() ==> {
                    let ms = (#[trigger] groups@[g]).members@;
                    &&& ms.len() > 0
                    &&& forall|a: int, b: int| 0 <= a < b < ms.len() ==> ms[a] < ms[b]
                    &&& forall|a: int|
                        0 <= a < ms.len() ==> ms[a] < i && keep@[ms[a] as int] && ks[ms[a] as int]
                            == groups@[g].slot@
                },
            forall|g: int, h: int|
                0 <= g < h < groups.len() ==> (#[trigger] groups@[g]).slot@ != (
                #[trigger] groups@[h]).slot@ && groups@[g].members@[0] < groups@[h].members@[0],
            forall|j: int|
                0 <= j < i && keep@[j] ==> exists|g: int, a: int|
                    0 <= g < groups.len() && 0 <= a < groups@[g].members@.len()
                        && #[trigger] groups@[g].members@[a] == j,
        decreases keys.len() - i,
    {
        if keep[i] {
            proof {
                assert(ks[i as int] == keys@[i as int]@);
            }
            match find_group(&groups, &keys[i]) {
                Some(g) => {
                    let ghost old_groups = groups@;
                    let mut grp = groups.remove(g);
                    let ghost old_ms = grp.members@;
                    grp.members.push(i);
                    groups.insert(g, grp);
                    proof {
                        assert forall|h: int| 0 <= h < groups.len() && h != g implies #[trigger] groups@[h]
                            == old_groups[h] by {}
                        assert(groups@[g as int].members@ == old_ms.push(i));
                        assert forall|j: int| 0 <= j < i + 1 && keep@[j] implies exists|gg: int, a: int|
                            0 <= gg < groups.len() && 0 <= a < groups@[gg].members@.len()
                                && #[trigger] groups@[gg].members@[a] == j by {
                            if j == i {
                                assert(groups@[g as int].members@[old_ms.len() as int] == j);
                            } else {
                                let (gg, a) = choose|gg: int, a: int|
                                    0 <= gg < old_groups.len() && 0 <= a < old_groups[gg].members@.len()
                                        && #[trigger] old_groups[gg].members@[a] == j;
                                if gg == g {
                                    assert(groups@[g as int].members@[a] == j);
                                } else {
                                    assert(groups@[gg].members@[a] == j);
                                }
                            }
                        }
                    }
                },
                None => {
                    let mut ms: Vec<usize> = Vec::new();
                    ms.push(i);
                    let ghost old_groups = groups@;
                    groups.push(SlotGroup { slot: keys[i].clone(), members: ms });
                    proof {
                        assert forall|j: int| 0 <= j < i + 1 && keep@[j] implies exists|gg: int, a: int|
                            0 <= gg < groups.len() && 0 <= a < groups@[gg].members@.len()
                                && #[trigger] groups@[gg].members@[a] == j by {
                            if j == i {
                                assert(groups@[old_groups.len() as int].members@[0] == j);
                            } else {
                                let (gg, a) = choose|gg: int, a: int|
                                    0 <= gg < old_groups.len() && 0 <= a < old_groups[gg].members@.len()
                                        && #[trigger] old_groups[gg].members@[a] == j;
                                assert(groups@[gg].members@[a] == j);
                            }
                        }
                    }
                },
            }
        }
        i = i + 1;
    }
    groups
}


// ---------------------------------------------------------------------------
// String maximum and minimum
// ---------------------------------------------------------------------------

/// The greatest string of `s` (`Iterator::max`), or "" for none.
pub open spec fn seq_max(s: Seq<Seq<char>>) -> Seq<char>
    decreases s.len(),
{
    if s.len() == 0 {
        Seq::<char>::empty()
    } else if s.len() == 1 {
        s[0]
    } else {
        let m = seq_max(s.drop_last());
        if seq_lt(m, s.last()) {
            s.last()
        } else {
            m
        }
    }
}

/// The least string of `s` (`Iterator::min`), or "" for none.
pub open spec fn seq_min(s: Seq<Seq<char>>) -> Seq<char>
    decreases s.len(),
{
    if s.len() == 0 {
        Seq::<char>::empty()
    } else if s.len() == 1 {
        s[0]
    } else {
        let m = seq_min(s.drop_last());
        if seq_lt(s.last(), m) {
            s.last()
        } else {
            m
        }
    }
}

/// No string of `s` is above its maximum, and the maximum is one of them.
pub proof fn lemma_seq_max_is_max(s: Seq<Seq<char>>)
    requires
        s.len() > 0,
    ensures
        forall|i: int| 0 <= i < s.len() ==> !seq_lt(seq_max(s), #[trigger] s[i]),
        exists|i: int| 0 <= i < s.len() && #[trigger] s[i] == seq_max(s),
    decreases s.len(),
{
    if s.len() == 1 {
        lemma_seq_lt_total(s[0], s[0]);
        assert(seq_max(s) == s[0]);
    } else {
        let p = s.drop_last();
        lemma_seq_max_is_max(p);
        let m = seq_max(p);
        let last = s[s.len() - 1];
        assert(seq_max(s) == (if seq_lt(m, last) { last } else { m }));
        lemma_seq_lt_total(m, last);
        lemma_seq_lt_total(last, last);
        lemma_seq_lt_total(m, m);
        assert forall|i: int| 0 <= i < s.len() implies !seq_lt(seq_max(s), #[trigger] s[i]) by {
            if i < s.len() - 1 {
                assert(s[i] == p[i]);
                assert(!seq_lt(m, p[i]));
                if seq_lt(m, last) && seq_lt(last, s[i]) {
                    lemma_seq_lt_transitive(m, last, s[i]);
                }
            }
        }
        if seq_lt(m, last) {
            assert(s[s.len() - 1] == seq_max(s));
        } else {
            let w = choose|i: int| 0 <= i < p.len() && #[trigger] p[i] == m;
            assert(s[w] == p[w]);
            assert(s[w] == seq_max(s));
        }
    }
}

/// No string of `s` is below its minimum, and the minimum is one of them.
pub proof fn lemma_seq_min_is_min(s: Seq<Seq<char>>)
    requires
        s.len() > 0,
    ensures
        forall|i: int| 0 <= i < s.len() ==> !seq_lt(#[trigger] s[i], seq_min(s)),
        exists|i: int| 0 <= i < s.len() && #[trigger] s[i] == seq_min(s),
    decreases s.len(),
{
    if s.len() == 1 {
        lemma_seq_lt_total(s[0], s[0]);
        assert(seq_min(s) == s[0]);
    } else {
        let p = s.drop_last();
        lemma_seq_min_is_min(p);
        let m = seq_min(p);
        let last = s[s.len() - 1];
        assert(seq_min(s) == (if seq_lt(last, m) { last } else { m }));
        lemma_seq_lt_total(m, last);
        lemma_seq_lt_total(last, last);
        lemma_seq_lt_total(m, m);
        assert forall|i: int| 0 <= i < s.len() implies !seq_lt(#[trigger] s[i], seq_min(s)) by {
            if i < s.len() - 1 {
                assert(s[i] == p[i]);
                assert(!seq_lt(p[i], m));
                if seq_lt(last, m) && seq_lt(s[i], last) {
                    lemma_seq_lt_transitive(s[i], last, m);
                }
            }
        }
        if seq_lt(last, m) {
            assert(s[s.len() - 1] == seq_min(s));
        } else {
            let w = choose|i: int| 0 <= i < p.len() && #[trigger] p[i] == m;
            assert(s[w] == p[w]);
            assert(s[w] == seq_min(s));
        }
    }
}

/// The greatest string of `v`, "" when `v` is empty.
pub fn max_string(v: &Vec<String>) -> (r: String)
    ensures
        r@ == seq_max(v.deep_view()),
{
    let ghost vs = v.deep_view();
    if v.len() == 0 {
        return String::new();
    }
    let mut best: String = v[0].clone();
    let mut i: usize = 1;
    proof {
        assert(vs.take(1) =~= seq![vs[0]]);
        assert(vs[0] == v@[0]@);
    }
    while i < v.len()
        invariant
            1 <= i <= v.len(),
            vs == v.deep_view(),
            best@ == seq_max(vs.take(i as int)),
        decreases v.len() - i,
    {
        proof {
            assert(vs.take(i + 1).drop_last() =~= vs.take(i as int));
            assert(vs.take(i + 1).last() == v@[i as int]@);
        }
        if str_lt(best.as_str(), v[i].as_str()) {
            best = v[i].clone();
        }
        i = i + 1;
    }
    proof {
        assert(vs.take(v.len() as int) =~= vs);
    }
    best
}

/// The least string of `v`, "" when `v` is empty.
pub fn min_string(v: &Vec<String>) -> (r: String)
    ensures
        r@ == seq_min(v.deep_view()),
{
    let ghost vs = v.deep_view();
    if v.len() == 0 {
        return String::new();
    }
    let mut best: String = v[0].clone();
    let mut i: usize = 1;
    proof {
        assert(vs.take(1) =~= seq![vs[0]]);
        assert(vs[0] == v@[0]@);
    }
    while i < v.len()
        invariant
            1 <= i <= v.len(),
            vs == v.deep_view(),
            best@ == seq_min(vs.take(i as int)),
        decreases v.len() - i,
    {
        proof {
            assert(vs.take(i + 1).drop_last() =~= vs.take(i as int));
            assert(vs.take(i + 1).last() == v@[i as int]@);
        }
        if str_lt(v[i].as_str(), best.as_str()) {
            best = v[i].clone();
        }
        i = i + 1;
    }
    proof {
        assert(vs.take(v.len() as int) =~= vs);
    }
    best
}

// ---------------------------------------------------------------------------
// Reflection slots
// ---------------------------------------------------------------------------

/// A row already in the database for a slot: its id and the column the
/// decision reads (a reflection's text, a wellness check's `created_at`).
#[derive(Clone, Debug)]
pub struct ExistingRow {
    pub id: i64,
    pub value: String,
}

/// How a slot's surviving row is written.
#[derive(Clone, Debug)]
pub enum SlotWrite {
    /// The first existing row is kept and rewritten; the others go.
    Update { survivor_id: i64, delete_ids: Vec<i64> },
    /// No existing row: one fresh row, created at the earliest import time.
    Insert { created_at: String },
}

#[derive(Clone, Debug)]
pub struct ReflectionSlotPlan {
    pub final_text: String,
    pub final_updated_at: String,
    /// More than one physical row collapsed into this slot.
    pub merged: bool,
    pub write: SlotWrite,
}

/// How many rows a slot holds after its write: the existing rows less those
/// deleted, plus one for a fresh insert.
pub open spec fn reflection_rows_after(existing: int, w: SlotWrite) -> int {
    match w {
        SlotWrite::Update { survivor_id, delete_ids } => existing - delete_ids@.len(),
        SlotWrite::Insert { created_at } => existing + 1,
    }
}

/// A row's effective `updated_at`: its own, or its `created_at` when the
/// export predates that column.
pub open spec fn effective_updated_at(r: ImportReflectionRow) -> Seq<char> {
    match r.updated_at {
        Some(u) => u@,
        None => r.created_at@,
    }
}

pub open spec fn member_texts(rows: Seq<ImportReflectionRow>, members: Seq<usize>) -> Seq<Seq<char>> {
    Seq::new(members.len(), |k: int| rows[members[k] as int].text@)
}

pub open spec fn member_updated(rows: Seq<ImportReflectionRow>, members: Seq<usize>) -> Seq<Seq<char>> {
    Seq::new(members.len(), |k: int| effective_updated_at(rows[members[k] as int]))
}

pub open spec fn member_created(rows: Seq<ImportReflectionRow>, members: Seq<usize>) -> Seq<Seq<char>> {
    Seq::new(members.len(), |k: int| rows[members[k] as int].created_at@)
}

pub open spec fn existing_values(existing: Seq<ExistingRow>) -> Seq<Seq<char>> {
    Seq::new(existing.len(), |k: int| existing[k].value@)
}

pub open spec fn existing_ids(existing: Seq<ExistingRow>) -> Seq<i64> {
    Seq::new(existing.len(), |k: int| existing[k].id)
}

/// The merged text of a reflection slot: the existing rows' lines, deduped,
/// merged with every incoming row's lines, one per line.
pub open spec fn reflection_final_text(existing: Seq<Seq<char>>, incoming: Seq<Seq<char>>) -> Seq<char> {
    join_spec(merge_reflection_spec(dedupe_spec(concat_clean_lines(existing)), concat_clean_lines(incoming)))
}

/// Once real content arrives for a slot, an existing "skip" placeholder row
/// makes no difference: the slot's merged text is the same as if that row
/// were not there (the placeholder is dropped, not kept beside the real
/// reflection).
pub proof fn lemma_placeholder_row_is_dropped(
    existing: Seq<Seq<char>>,
    placeholder: Seq<char>,
    incoming: Seq<Seq<char>>,
)
    requires
        has_real_content(concat_clean_lines(incoming)),
        is_ignorable_spec(placeholder),
    ensures
        reflection_final_text(existing.push(placeholder), incoming) == reflection_final_text(existing, incoming),
{
    let a = concat_clean_lines(existing);
    let sk = clean_lines(placeholder);
    assert(existing.push(placeholder).drop_last() =~= existing);
    assert(concat_clean_lines(existing.push(placeholder)) == a + sk);
    let empty = Seq::<Seq<char>>::empty();
    lemma_append_unique_concat(empty, a, sk);
    let d = dedupe_spec(a);
    lemma_append_unique_closed_form(d, sk);
    lemma_new_lines_members(d, sk);
    let nl = new_lines(d, sk);
    assert forall|i: int| 0 <= i < nl.len() implies is_skip_spec(#[trigger] nl[i]) by {
        let j = choose|j: int| 0 <= j < sk.len() && sk[j] == nl[i];
        assert(is_skip_spec(sk[j]));
    }
    lemma_without_skips_append_skips(d, nl);
    assert(dedupe_spec(a + sk) == d + nl);
}

fn collect_member_texts(rows: &Vec<ImportReflectionRow>, members: &Vec<usize>, which: u8) -> (r: Vec<String>)
    requires
        forall|k: int| 0 <= k < members.len() ==> (#[trigger] members@[k]) < rows.len(),
    ensures
        which == 0 ==> r.deep_view() == member_texts(rows@, members@),
        which == 1 ==> r.deep_view() == member_updated(rows@, members@),
        which == 2 ==> r.deep_view() == member_created(rows@, members@),
{
    let mut out: Vec<String> = Vec::new();
    let mut k: usize = 0;
    while k < members.len()
        invariant
            0 <= k <= members.len(),
            forall|j: int| 0 <= j < members.len() ==> (#[trigger] members@[j]) < rows.len(),
            out.len() == k,
            which == 0 ==> out.deep_view() == member_texts(rows@, members@).take(k as int),
            which == 1 ==> out.deep_view() == member_updated(rows@, members@).take(k as int),
            which == 2 ==> out.deep_view() == member_created(rows@, members@).take(k as int),
        decreases members.len() - k,
    {
        let row = &rows[members[k]];
        let v: String = if which == 0 {
            row.text.clone()
        } else if which == 1 {
            match &row.updated_at {
                Some(u) => u.clone(),
                None => row.created_at.clone(),
            }
        } else {
            row.created_at.clone()
        };
        let ghost before = out.deep_view();
        out.push(v);
        proof {
            assert(out.deep_view() =~= before.push(v@));
            assert(member_texts(rows@, members@).take(k + 1) =~= member_texts(rows@, members@).take(
                k as int,
            ).push(rows@[members@[k as int] as int].text@));
            assert(member_updated(rows@, members@).take(k + 1) =~= member_updated(rows@, members@).take(
                k as int,
            ).push(effective_updated_at(rows@[members@[k as int] as int])));
            assert(member_created(rows@, members@).take(k + 1) =~= member_created(rows@, members@).take(
                k as int,
            ).push(rows@[members@[k as int] as int].created_at@));
        }
        k = k + 1;
    }
    proof {
        assert(member_texts(rows@, members@).take(members.len() as int) =~= member_texts(rows@, members@));
        assert(member_updated(rows@, members@).take(members.len() as int) =~= member_updated(rows@, members@));
        assert(member_created(rows@, members@).take(members.len() as int) =~= member_created(rows@, members@));
    }
    out
}

fn collect_existing(existing: &Vec<ExistingRow>) -> (r: (Vec<String>, Vec<i64>))
    ensures
        r.0.deep_view() == existing_values(existing@),
        r.1@ == existing_ids(existing@),
{
    let mut vals: Vec<String> = Vec::new();
    let mut ids: Vec<i64> = Vec::new();
    let mut k: usize = 0;
    while k < existing.len()
        invariant
            0 <= k <= existing.len(),
            vals.deep_view() == existing_values(existing@).take(k as int),
            ids@ == existing_ids(existing@).take(k as int),
        decreases existing.len() - k,
    {
        let ghost before = vals.deep_view();
        vals.push(existing[k].value.clone());
        ids.push(existing[k].id);
        proof {
            assert(vals.deep_view() =~= before.push(existing@[k as int].value@));
            assert(existing_values(existing@).take(k + 1) =~= existing_values(existing@).take(
                k as int,
            ).push(existing@[k as int].value@));
            assert(existing_ids(existing@).take(k + 1) =~= existing_ids(existing@).take(k as int).push(
                existing@[k as int].id,
            ));
        }
        k = k + 1;
    }
    proof {
        assert(existing_values(existing@).take(existing.len() as int) =~= existing_values(existing@));
        assert(existing_ids(existing@).take(existing.len() as int) =~= existing_ids(existing@));
    }
    (vals, ids)
}

/// Decides one reflection slot of an import: the merged text (existing
/// rows' lines deduped, then the incoming rows' lines merged in with the
/// "skip" rule), the latest effective `updated_at` of the incoming rows,
/// whether several rows collapsed, and how the survivor is written -- the
/// first existing row rewritten with every other existing row deleted, or a
/// fresh row created at the earliest incoming `created_at`.
pub fn plan_reflection_slot(
    rows: &Vec<ImportReflectionRow>,
    members: &Vec<usize>,
    existing: &Vec<ExistingRow>,
) -> (r: ReflectionSlotPlan)
    requires
        forall|k: int| 0 <= k < members.len() ==> (#[trigger] members@[k]) < rows.len(),
        existing.len() + members.len() <= usize::MAX,
    ensures
        r.final_text@ == reflection_final_text(
            existing_values(existing@),
            member_texts(rows@, members@),
        ),
        r.final_updated_at@ == seq_max(member_updated(rows@, members@)),
        r.merged == (existing.len() + members.len() > 1),
        existing.len() > 0 ==> (r.write matches SlotWrite::Update { survivor_id, delete_ids }
            && survivor_id == existing@[0].id && delete_ids@ == existing_ids(existing@).drop_first()),
        existing.len() == 0 ==> (r.write matches SlotWrite::Insert { created_at }
            && created_at@ == seq_min(member_created(rows@, members@))),
        reflection_rows_after(existing.len() as int, r.write) == 1,
{
    let (ex_vals, ex_ids) = collect_existing(existing);
    let texts = collect_member_texts(rows, members, 0);
    let updated = collect_member_texts(rows, members, 1);
    let existing_lines = concat_lines_of(&ex_vals);
    let baseline = dedupe_first_seen_ci(existing_lines);
    let incoming = concat_lines_of(&texts);
    let merged_lines = merge_reflection_lines(baseline.as_slice(), incoming.as_slice());
    let final_text = join_lines(merged_lines.as_slice());
    let final_updated_at = max_string(&updated);
    let merged = existing.len() + members.len() > 1;
    let write = if existing.len() > 0 {
        let mut deletes: Vec<i64> = Vec::new();
        let mut k: usize = 1;
        while k < ex_ids.len()
            invariant
                1 <= k <= ex_ids.len(),
                ex_ids@ == existing_ids(existing@),
                deletes@ == ex_ids@.subrange(1, k as int),
            decreases ex_ids.len() - k,
        {
            deletes.push(ex_ids[k]);
            proof {
                assert(ex_ids@.subrange(1, k + 1) =~= ex_ids@.subrange(1, k as int).push(ex_ids@[k as int]));
            }
            k = k + 1;
        }
        proof {
            assert(ex_ids@.subrange(1, ex_ids.len() as int) =~= ex_ids@.drop_first());
        }
        SlotWrite::Update { survivor_id: existing[0].id, delete_ids: deletes }
    } else {
        let created = collect_member_texts(rows, members, 2);
        SlotWrite::Insert { created_at: min_string(&created) }
    };
    ReflectionSlotPlan { final_text, final_updated_at, merged, write }
}

/// The timestamps a reflection slot ends up with: the `updated_at` written
/// is the latest effective `updated_at` of the slot's incoming rows, and a
/// fresh row's `created_at` the earliest incoming `created_at` -- each is
/// one of the rows' own values, and no incoming row is later, respectively
/// earlier.
pub proof fn lemma_slot_timestamps(rows: Seq<ImportReflectionRow>, members: Seq<usize>)
    requires
        members.len() > 0,
        forall|k: int| 0 <= k < members.len() ==> (#[trigger] members[k]) < rows.len(),
    ensures
        forall|k: int|
            0 <= k < members.len() ==> !seq_lt(
                seq_max(member_updated(rows, members)),
                effective_updated_at(rows[#[trigger] members[k] as int]),
            ),
        exists|k: int|
            0 <= k < members.len() && effective_updated_at(rows[#[trigger] members[k] as int]) == seq_max(
                member_updated(rows, members),
            ),
        forall|k: int|
            0 <= k < members.len() ==> !seq_lt(
                rows[#[trigger] members[k] as int].created_at@,
                seq_min(member_created(rows, members)),
            ),
        exists|k: int|
            0 <= k < members.len() && rows[#[trigger] members[k] as int].created_at@ == seq_min(
                member_created(rows, members),
            ),
{
    let up = member_updated(rows, members);
    let cr = member_created(rows, members);
    lemma_seq_max_is_max(up);
    lemma_seq_min_is_min(cr);
    assert forall|k: int| 0 <= k < members.len() implies !seq_lt(
        seq_max(up),
        effective_updated_at(rows[#[trigger] members[k] as int]),
    ) by {
        assert(up[k] == effective_updated_at(rows[members[k] as int]));
    }
    assert forall|k: int| 0 <= k < members.len() implies !seq_lt(
        rows[#[trigger] members[k] as int].created_at@,
        seq_min(cr),
    ) by {
        assert(cr[k] == rows[members[k] as int].created_at@);
    }
    let w = choose|i: int| 0 <= i < up.len() && #[trigger] up[i] == seq_max(up);
    assert(effective_updated_at(rows[members[w] as int]) == seq_max(up));
    let v = choose|i: int| 0 <= i < cr.len() && #[trigger] cr[i] == seq_min(cr);
    assert(rows[members[v] as int].created_at@ == seq_min(cr));
}

// ---------------------------------------------------------------------------
// Wellness checks
// ---------------------------------------------------------------------------

#[derive(Clone, Debug)]
pub struct WellnessSlotPlan {
    /// The imported row to insert, when an incoming row wins the slot.
    pub insert_row: Option<usize>,
    /// Existing rows to delete.
    pub delete_ids: Vec<i64>,
    /// Incoming rows of this slot that are skipped.
    pub duplicates: usize,
}

pub open spec fn wellness_created(rows: Seq<ImportWellnessCheckRow>, members: Seq<usize>) -> Seq<Seq<char>> {
    Seq::new(members.len(), |k: int| rows[members[k] as int].created_at@)
}

/// `k` is where the first minimum of `vals` sits (`Iterator::min_by`):
/// nothing is below `vals[k]`, everything before it is above.
pub open spec fn is_first_min(vals: Seq<Seq<char>>, k: int) -> bool {
    &&& 0 <= k < vals.len()
    &&& forall|j: int| 0 <= j < vals.len() ==> !seq_lt(#[trigger] vals[j], vals[k])
    &&& forall|j: int| 0 <= j < k ==> seq_lt(vals[k], #[trigger] vals[j])
}

/// Decides one wellness-check slot of an import: exactly one row survives,
/// the one with the earliest `created_at` among the existing rows (ordered
/// by `created_at`, then id) and the incoming ones; on a tie the existing
/// row stays. When the earliest incoming row wins, it is inserted and every
/// existing row deleted, and the other incoming rows count as duplicates;
/// otherwise every existing row but the first is deleted and all incoming
/// rows count as duplicates.
pub fn plan_wellness_slot(
    rows: &Vec<ImportWellnessCheckRow>,
    members: &Vec<usize>,
    existing: &Vec<ExistingRow>,
) -> (r: WellnessSlotPlan)
    requires
        members.len() > 0,
        forall|k: int| 0 <= k < members.len() ==> (#[trigger] members@[k]) < rows.len(),
    ensures
        exists|k: int|
            #![trigger is_first_min(wellness_created(rows@, members@), k)]
            is_first_min(wellness_created(rows@, members@), k) && {
                let wins = existing.len() == 0 || seq_lt(
                    wellness_created(rows@, members@)[k],
                    existing@[0].value@,
                );
                &&& wins ==> r.insert_row == Some(members@[k]) && r.delete_ids@ == existing_ids(
                    existing@,
                ) && r.duplicates == members.len() - 1
                &&& !wins ==> r.insert_row is None && r.delete_ids@ == existing_ids(
                    existing@,
                ).drop_first() && r.duplicates == members.len()
            },
        existing.len() - r.delete_ids.len() + (if r.insert_row is Some { 1int } else { 0int }) == 1,
        r.duplicates + (if r.insert_row is Some { 1int } else { 0int }) == members.len(),
{
    let ghost vals = wellness_created(rows@, members@);
    proof {
        lemma_seq_lt_total(vals[0], vals[0]);
    }
    let mut best: usize = 0;
    let mut i: usize = 1;
    while i < members.len()
        invariant
            1 <= i <= members.len(),
            best < i,
            forall|k: int| 0 <= k < members.len() ==> (#[trigger] members@[k]) < rows.len(),
            vals == wellness_created(rows@, members@),
            forall|j: int| 0 <= j < i ==> !seq_lt(#[trigger] vals[j], vals[best as int]),
            forall|j: int| 0 <= j < best ==> seq_lt(vals[best as int], #[trigger] vals[j]),
        decreases members.len() - i,
    {
        let a = &rows[members[i]].created_at;
        let b = &rows[members[best]].created_at;
        if str_lt(a.as_str(), b.as_str()) {
            proof {
                assert forall|j: int| 0 <= j < i + 1 implies !seq_lt(#[trigger] vals[j], vals[i as int]) by {
                    lemma_seq_lt_total(vals[j], vals[i as int]);
                    if j < i {
                        lemma_seq_lt_total(vals[j], vals[best as int]);
                        if seq_lt(vals[j], vals[i as int]) {
                            lemma_seq_lt_transitive(vals[j], vals[i as int], vals[best as int]);
                        }
                    }
                }
                assert forall|j: int| 0 <= j < i implies seq_lt(vals[i as int], #[trigger] vals[j]) by {
                    lemma_seq_lt_total(vals[j], vals[best as int]);
                    lemma_seq_lt_total(vals[i as int], vals[best as int]);
                    if vals[j] == vals[best as int] {
                    } else {
                        lemma_seq_lt_transitive(vals[i as int], vals[best as int], vals[j]);
                    }
                }
            }
            best = i;
        } else {
            proof {
                assert(!seq_lt(vals[i as int], vals[best as int]));
            }
        }
        i = i + 1;
    }
    let (_, ids) = collect_existing(existing);
    let wins = existing.len() == 0 || str_lt(
        rows[members[best]].created_at.as_str(),
        existing[0].value.as_str(),
    );
    proof {
        assert(is_first_min(vals, best as int));
    }
    if wins {
        WellnessSlotPlan { insert_row: Some(members[best]), delete_ids: ids, duplicates: members.len() - 1 }
    } else {
        let mut deletes: Vec<i64> = Vec::new();
        let mut k: usize = 1;
        while k < ids.len()
            invariant
                1 <= k <= ids.len(),
                ids@ == existing_ids(existing@),
                deletes@ == ids@.subrange(1, k as int),
            decreases ids.len() - k,
        {
            deletes.push(ids[k]);
            proof {
                assert(ids@.subrange(1, k + 1) =~= ids@.subrange(1, k as int).push(ids@[k as int]));
            }
            k = k + 1;
        }
        proof {
            assert(ids@.subrange(1, ids.len() as int) =~= ids@.drop_first());
        }
        WellnessSlotPlan { insert_row: None, delete_ids: deletes, duplicates: members.len() }
    }
}

// ---------------------------------------------------------------------------
// Day rows, wipes and the result
// ---------------------------------------------------------------------------

/// The content a day row gets: in merge mode over an existing day, the
/// existing lines (deduped) with every new incoming line appended; a new
/// day, or replace mode, takes the incoming content as it is.
pub open spec fn day_content_spec(existing: Option<Seq<char>>, content: Seq<char>, mode: ImportMode) -> Seq<char> {
    match existing {
        Some(e) if mode == ImportMode::Merge => join_spec(
            append_unique_spec(dedupe_spec(clean_lines(e)), clean_lines(content)),
        ),
        _ => content,
    }
}

pub fn merge_day_content(existing: &Option<String>, content: &str, mode: ImportMode) -> (r: String)
    ensures
        r@ == day_content_spec(
            match existing {
                Some(e) => Some(e@),
                None => None,
            },
            content@,
            mode,
        ),
{
    match existing {
        Some(e) => {
            if mode == ImportMode::Merge {
                let baseline = dedupe_first_seen_ci(line_split_trim(e.as_str()));
                let incoming = line_split_trim(content);
                let lines = append_unique_lines_ci(baseline.as_slice(), incoming.as_slice());
                join_lines(lines.as_slice())
            } else {
                content.to_owned()
            }
        },
        None => content.to_owned(),
    }
}

/// Whether a reflection row is dropped before grouping: blank, or nothing
/// but "skip" lines.
pub fn reflection_keep_flags(rows: &Vec<ImportReflectionRow>) -> (r: (Vec<String>, Vec<bool>))
    ensures
        r.0.len() == rows.len(),
        r.1.len() == rows.len(),
        forall|i: int| 0 <= i < rows.len() ==> (#[trigger] r.0@[i])@ == rows@[i].slot_start_at@,
        forall|i: int| 0 <= i < rows.len() ==> #[trigger] r.1@[i] == !is_ignorable_spec(rows@[i].text@),
{
    let mut keys: Vec<String> = Vec::new();
    let mut keep: Vec<bool> = Vec::new();
    let mut i: usize = 0;
    while i < rows.len()
        invariant
            0 <= i <= rows.len(),
            keys.len() == i,
            keep.len() == i,
            forall|k: int| 0 <= k < i ==> (#[trigger] keys@[k])@ == rows@[k].slot_start_at@,
            forall|k: int| 0 <= k < i ==> #[trigger] keep@[k] == !is_ignorable_spec(rows@[k].text@),
        decreases rows.len() - i,
    {
        keys.push(rows[i].slot_start_at.clone());
        keep.push(!is_ignorable_entry(rows[i].text.as_str()));
        i = i + 1;
    }
    (keys, keep)
}

/// Groups an import's reflection rows by slot, dropping ignorable rows.
pub fn group_reflection_rows(rows: &Vec<ImportReflectionRow>) -> (r: Vec<SlotGroup>)
    ensures
        is_grouping(
            r@,
            Seq::new(rows.len() as nat, |i: int| rows@[i].slot_start_at@),
            Seq::new(rows.len() as nat, |i: int| !is_ignorable_spec(rows@[i].text@)),
        ),
{
    let (keys, keep) = reflection_keep_flags(rows);
    proof {
        assert(keys.deep_view() =~= Seq::new(rows.len() as nat, |i: int| rows@[i].slot_start_at@));
        assert(keep@ =~= Seq::new(rows.len() as nat, |i: int| !is_ignorable_spec(rows@[i].text@)));
    }
    group_by_slot(&keys, &keep)
}

/// The slot keys and keep flags `group_reflection_rows` groups by.
pub open spec fn reflection_keys(rows: Seq<ImportReflectionRow>) -> Seq<Seq<char>> {
    Seq::new(rows.len(), |i: int| rows[i].slot_start_at@)
}

pub open spec fn reflection_keep(rows: Seq<ImportReflectionRow>) -> Seq<bool> {
    Seq::new(rows.len(), |i: int| !is_ignorable_spec(rows[i].text@))
}

/// A blank or skip-only imported reflection is as if it were not in the
/// file: it is a member of no slot group (so it never reaches a slot's
/// merge), and every group's slot is that of a row with content (its
/// first member), so a slot whose imported rows are all such gets no group
/// at all (an existing row there is left alone, no new row is made).
pub proof fn lemma_ignorable_rows_touch_nothing(rows: Seq<ImportReflectionRow>, groups: Seq<SlotGroup>)
    requires
        is_grouping(groups, reflection_keys(rows), reflection_keep(rows)),
    ensures
        forall|g: int, a: int|
            0 <= g < groups.len() && 0 <= a < groups[g].members@.len() ==> !is_ignorable_spec(
                rows[#[trigger] groups[g].members@[a] as int].text@,
            ),
        forall|g: int|
            0 <= g < groups.len() ==> (#[trigger] groups[g]).members@.len() > 0 && !is_ignorable_spec(
                rows[groups[g].members@[0] as int].text@,
            ) && rows[groups[g].members@[0] as int].slot_start_at@ == groups[g].slot@,
{
    assert forall|g: int| 0 <= g < groups.len() implies (#[trigger] groups[g]).members@.len() > 0
        && !is_ignorable_spec(rows[groups[g].members@[0] as int].text@) && rows[groups[g].members@[
        0] as int].slot_start_at@ == groups[g].slot@ by {
        let gg = groups[g];
        let i = gg.members@[0] as int;
        assert(reflection_keep(rows)[i] && reflection_keys(rows)[i] == gg.slot@);
    }
    assert forall|g: int, a: int|
        0 <= g < groups.len() && 0 <= a < groups[g].members@.len() implies !is_ignorable_spec(
            rows[#[trigger] groups[g].members@[a] as int].text@,
        ) by {
        let gg = groups[g];
        assert(reflection_keep(rows)[gg.members@[a] as int]);
    }
}

/// A day-row merge keeps the existing day's lines (deduped) in place and in
/// order, takes in every incoming line (case-insensitively), and changes
/// nothing when every incoming line is already there.
pub proof fn lemma_day_merge(existing: Seq<char>, content: Seq<char>)
    ensures
        ({
            let base = dedupe_spec(clean_lines(existing));
            let lines = append_unique_spec(base, clean_lines(content));
            &&& day_content_spec(Some(existing), content, ImportMode::Merge) == join_spec(lines)
            &&& lines.subrange(0, base.len() as int) == base
            &&& forall|j: int|
                0 <= j < clean_lines(content).len() ==> has_key(
                    lines,
                    unicode_lowercase(#[trigger] clean_lines(content)[j]),
                )
            &&& (forall|j: int|
                0 <= j < clean_lines(content).len() ==> has_key(
                    base,
                    unicode_lowercase(#[trigger] clean_lines(content)[j]),
                )) ==> lines == base
        }),
{
    let base = dedupe_spec(clean_lines(existing));
    lemma_append_unique_keeps_prefix(base, clean_lines(content));
    lemma_append_unique_covers_incoming(base, clean_lines(content));
    if forall|j: int|
        0 <= j < clean_lines(content).len() ==> has_key(base, unicode_lowercase(#[trigger] clean_lines(content)[j])) {
        lemma_append_unique_noop(base, clean_lines(content));
    }
}

/// Groups an import's wellness checks by slot (none is dropped).
pub fn group_wellness_rows(rows: &Vec<ImportWellnessCheckRow>) -> (r: Vec<SlotGroup>)
    ensures
        is_grouping(
            r@,
            Seq::new(rows.len() as nat, |i: int| rows@[i].slot_start_at@),
            Seq::new(rows.len() as nat, |i: int| true),
        ),
{
    let mut keys: Vec<String> = Vec::new();
    let mut keep: Vec<bool> = Vec::new();
    let mut i: usize = 0;
    while i < rows.len()
        invariant
            0 <= i <= rows.len(),
            keys.len() == i,
            keep.len() == i,
            forall|k: int| 0 <= k < i ==> (#[trigger] keys@[k])@ == rows@[k].slot_start_at@,
            forall|k: int| 0 <= k < i ==> #[trigger] keep@[k],
        decreases rows.len() - i,
    {
        keys.push(rows[i].slot_start_at.clone());
        keep.push(true);
        i = i + 1;
    }
    proof {
        assert(keys.deep_view() =~= Seq::new(rows.len() as nat, |i: int| rows@[i].slot_start_at@));
        assert(keep@ =~= Seq::new(rows.len() as nat, |i: int| true));
    }
    group_by_slot(&keys, &keep)
}

/// The tables a replace-mode import empties first, in order; the settings
/// table only when settings are imported too.
pub fn replace_mode_wipes(include_settings: bool) -> (r: Vec<&'static str>)
    ensures
        r.len() == (if include_settings { 6int } else { 5int }),
        r@[0]@ == "wellness_check"@,
        r@[1]@ == "reflection"@,
        r@[2]@ == "daily_task_list"@,
        r@[3]@ == "not_to_do_list"@,
        r@[4]@ == "screen_time_session"@,
        include_settings ==> r@[5]@ == "app_setting"@,
{
    let mut v: Vec<&'static str> = Vec::new();
    v.push("wellness_check");
    v.push("reflection");
    v.push("daily_task_list");
    v.push("not_to_do_list");
    v.push("screen_time_session");
    if include_settings {
        v.push("app_setting");
    }
    v
}

/// The counts reported back after an import.
pub fn import_result(
    data: &ImportData,
    include_settings: bool,
    merged_slot_count: usize,
    screen_time_duplicate_count: usize,
    wellness_check_duplicate_count: usize,
) -> (r: ImportResult)
    ensures
        r.reflection_count == data.reflection.len(),
        r.task_list_count == data.daily_task_list.len(),
        r.not_to_do_list_count == data.not_to_do_list.len(),
        r.setting_count == (if include_settings { data.app_setting.len() } else { 0 }),
        r.wellness_check_count == data.wellness_check.len(),
        r.screen_time_session_count == data.screen_time_session.len(),
        r.merged_slot_count == merged_slot_count,
        r.screen_time_duplicate_count == screen_time_duplicate_count,
        r.wellness_check_duplicate_count == wellness_check_duplicate_count,
{
    ImportResult {
        reflection_count: data.reflection.len(),
        task_list_count: data.daily_task_list.len(),
        not_to_do_list_count: data.not_to_do_list.len(),
        setting_count: if include_settings { data.app_setting.len() } else { 0 },
        wellness_check_count: data.wellness_check.len(),
        screen_time_session_count: data.screen_time_session.len(),
        merged_slot_count,
        screen_time_duplicate_count,
        wellness_check_duplicate_count,
    }
}

} // verus!
