use reflectodoro::merge::{
    append_unique_lines_ci, dedupe_first_seen_ci, is_ignorable_entry, is_skip_line, join_lines,
    line_split_trim, merge_reflection_lines,
};

fn lines(strs: &[&str]) -> Vec<String> {
    strs.iter().map(|s| s.to_string()).collect()
}

#[test]
fn fresh_lines_with_no_existing_row() {
    let result = merge_reflection_lines(&[], &lines(&["A", "B"]));
    assert_eq!(result, lines(&["A", "B"]));
}

#[test]
fn case_insensitive_dedupe_against_existing() {
    let existing = lines(&["A", "B"]);
    let result = merge_reflection_lines(&existing, &lines(&["a", "B"]));
    assert_eq!(result, lines(&["A", "B"]));
}

#[test]
fn skip_line_removed_when_real_content_arrives() {
    let existing = lines(&["Skip"]);
    let result = merge_reflection_lines(&existing, &lines(&["Went for a walk"]));
    assert_eq!(result, lines(&["Went for a walk"]));
}

#[test]
fn existing_skip_untouched_and_incoming_skip_appended_when_not_present() {
    let existing = lines(&["Did yoga"]);
    let result = merge_reflection_lines(&existing, &lines(&["Skip"]));
    assert_eq!(result, lines(&["Did yoga", "Skip"]));
}

#[test]
fn existing_skip_left_alone_when_incoming_is_skip_only_and_already_present() {
    let existing = lines(&["Skip"]);
    let result = merge_reflection_lines(&existing, &lines(&["skip"]));
    assert_eq!(result, lines(&["Skip"]));
}

#[test]
fn dedupe_across_duplicate_existing_rows() {
    let raw: Vec<String> = ["A", "A", "B"].iter().map(|s| s.to_string()).collect();
    assert_eq!(dedupe_first_seen_ci(raw), lines(&["A", "B"]));
}

#[test]
fn multiple_imported_rows_collapse_into_one_new_slot() {
    let incoming: Vec<String> = ["A", "A", "C"].iter().map(|s| s.to_string()).collect();
    let result = merge_reflection_lines(&[], &incoming);
    assert_eq!(result, lines(&["A", "C"]));
}

#[test]
fn blank_lines_are_discarded() {
    assert_eq!(line_split_trim("A\n\n  \nB\n"), lines(&["A", "B"]));
}

#[test]
fn entries_that_are_only_skip_or_empty_are_ignorable() {
    assert!(is_ignorable_entry(""));
    assert!(is_ignorable_entry("   \n  \n"));
    assert!(is_ignorable_entry("Skip"));
    assert!(is_ignorable_entry("skip\n\nSKIP"));
    assert!(!is_ignorable_entry("Skip\nWent for a walk"));
    assert!(!is_ignorable_entry("Went for a walk"));
}

#[test]
fn skip_check_is_case_insensitive() {
    assert!(is_skip_line("Skip"));
    assert!(is_skip_line("  SKIP  ".trim()));
    assert!(!is_skip_line("Skipped lunch"));
}

#[test]
fn merging_the_same_lines_twice_changes_nothing() {
    let existing = lines(&["Read", "Wrote"]);
    let incoming = lines(&["wrote", "Walked", "walked"]);
    let once = append_unique_lines_ci(&existing, &incoming);
    let twice = append_unique_lines_ci(&once, &incoming);
    assert_eq!(once, lines(&["Read", "Wrote", "Walked"]));
    assert_eq!(twice, once);
}

#[test]
fn existing_lines_stay_in_front_in_order() {
    let existing = lines(&["b", "a"]);
    let result = append_unique_lines_ci(&existing, &lines(&["c", "A"]));
    assert_eq!(result, lines(&["b", "a", "c"]));
}

#[test]
fn every_existing_skip_goes_when_real_content_arrives() {
    let existing = lines(&["Skip", "Coded", "SKIP"]);
    let result = merge_reflection_lines(&existing, &lines(&["skip", "Lunch"]));
    assert_eq!(result, lines(&["Coded", "skip", "Lunch"]));
}

#[test]
fn lines_are_trimmed_and_crlf_is_handled() {
    assert_eq!(line_split_trim("  one \r\ntwo\r\n\r\n"), lines(&["one", "two"]));
}

#[test]
fn joining_uses_newlines_between_lines_only() {
    assert_eq!(join_lines(&lines(&["a", "b", "c"])), "a\nb\nc");
    assert_eq!(join_lines(&lines(&["only"])), "only");
    assert_eq!(join_lines(&[]), "");
}

#[test]
fn non_ascii_lines_dedupe_by_unicode_lowercase() {
    let result = dedupe_first_seen_ci(lines(&["Über", "über", "ÜBER"]));
    assert_eq!(result, lines(&["Über"]));
}
