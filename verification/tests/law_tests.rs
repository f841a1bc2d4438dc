use reflectodoro::grid::Mode;
use reflectodoro::import::{group_reflection_rows, merge_day_content, ImportMode, ImportReflectionRow};
use reflectodoro::merge::{append_unique_lines_ci, dedupe_first_seen_ci, line_split_trim};
use reflectodoro::p2p::{delta_start_rev, hex_decode, hex_encode, in_delta, synced_tables};
use reflectodoro::text::trim;

fn strings(v: &[&str]) -> Vec<String> {
    v.iter().map(|s| s.to_string()).collect()
}

#[test]
fn a_mode_name_parses_back_to_its_mode() {
    for m in [Mode::Normal, Mode::Concentration] {
        assert_eq!(Mode::parse(m.as_str()), m);
    }
    assert_eq!(Mode::parse("\u{3000} Concentration\u{85}\t"), Mode::Concentration);
    assert_eq!(Mode::parse("concentration!"), Mode::Normal);
}

#[test]
fn trimming_follows_the_unicode_white_space_set() {
    assert_eq!(trim("\u{2009}\u{a0}x y\u{2029}\u{180e}"), "x y\u{2029}\u{180e}".trim());
    assert_eq!(trim("\u{200b}a"), "\u{200b}a");
    assert_eq!(trim("\u{1680}\u{202f}\u{205f}a\u{2028}\r\n"), "a");
}

#[test]
fn deduping_twice_is_deduping_once() {
    let once = dedupe_first_seen_ci(strings(&["Tea", "tea", "Walk", "TEA", "walk", "Read"]));
    assert_eq!(once, strings(&["Tea", "Walk", "Read"]));
    assert_eq!(dedupe_first_seen_ci(once.clone()), once);
}

#[test]
fn hex_decoding_undoes_hex_encoding() {
    let bytes: Vec<u8> = vec![0, 1, 0x7f, 0x80, 0xab, 0xff];
    let text = hex_encode(&bytes);
    assert_eq!(text, "00017f80abff");
    assert_eq!(hex_decode(&text).unwrap(), bytes);
}

#[test]
fn a_day_merge_keeps_existing_lines_and_is_a_no_op_when_covered() {
    let existing = Some("Write\nwrite\nRun".to_string());
    let merged = merge_day_content(&existing, "run\nCall mom", ImportMode::Merge);
    assert_eq!(merged, "Write\nRun\nCall mom");
    let covered = merge_day_content(&existing, "RUN\nwrite", ImportMode::Merge);
    assert_eq!(covered, "Write\nRun");
    assert_eq!(line_split_trim(&covered), strings(&["Write", "Run"]));
}

fn row(slot: &str, text: &str) -> ImportReflectionRow {
    ImportReflectionRow {
        created_at: "2026-08-19T08:00:00.000Z".to_string(),
        slot_start_at: slot.to_string(),
        text: text.to_string(),
        updated_at: None,
    }
}

#[test]
fn skip_only_and_blank_rows_reach_no_slot() {
    let rows = vec![row("a", "Skip"), row("b", "  \n "), row("c", "real"), row("a", "skip\nSKIP"), row("c", "skip")];
    let groups = group_reflection_rows(&rows);
    assert_eq!(groups.len(), 1);
    assert_eq!(groups[0].slot, "c");
    assert_eq!(groups[0].members, vec![2]);
}

#[test]
fn an_edit_to_an_old_row_is_in_the_next_delta() {
    // First sync: no cursor yet, revs 1..=3 written, high mark 3.
    let cursor = delta_start_rev(None);
    assert_eq!(cursor, 0);
    assert!((1..=3).all(|rev| in_delta(rev, cursor, 3)));
    // The cursor moves to 3; with nothing written, nothing is in the delta.
    let cursor = delta_start_rev(Some(3));
    assert!(!(1..=3).any(|rev| in_delta(rev, cursor, 3)));
    // Editing the oldest row gives it rev 4, above the cursor.
    assert!(in_delta(4, cursor, 4));
    assert!(!in_delta(2, cursor, 4));
    assert_eq!(synced_tables().len(), 5);
}

#[test]
fn appending_adds_exactly_the_lines_with_new_keys_in_order() {
    let acc = strings(&["Tea", "Walk"]);
    let incoming = strings(&["walk", "Read", "READ", "Call", "tea", "call"]);
    assert_eq!(append_unique_lines_ci(&acc, &incoming), strings(&["Tea", "Walk", "Read", "Call"]));
}
