use chrono::{Local, TimeZone};
use reflectodoro::grid::{Mode, ZonedTime};
use reflectodoro::hook::{KeyGuard, InstallOutcome, VK_LWIN, VK_MENU, VK_TAB, WM_KEYDOWN, WM_KEYUP, WM_SYSKEYDOWN};
use reflectodoro::ios::{plan_refresh, wake, IosRefreshState};
use reflectodoro::paths::{
    archive_take_count, log_files_newest_first, require_extension, require_json_extension, LogFileEntry,
};
use reflectodoro::text::{eq_ignore_ascii_case, i64_text, str_lt, trim, u64_text};

#[test]
fn only_json_paths_pass_the_data_commands() {
    assert!(require_json_extension("/tmp/export.json").is_ok());
    assert!(require_json_extension("C:/data/Export.JSON").is_ok());
    assert_eq!(require_json_extension("/etc/passwd").unwrap_err(), "only .json files are supported");
    assert!(require_json_extension("/tmp/.json").is_err());
    assert!(require_json_extension("/tmp/archive.json.zip").is_err());
    assert_eq!(require_extension("/tmp/logs.txt", "zip").unwrap_err(), "only .zip files are supported");
    assert!(require_extension("/tmp/app.LOG", "log").is_ok());
}

#[test]
fn archives_take_at_least_one_and_at_most_what_exists() {
    assert_eq!(archive_take_count(0, 5), 1);
    assert_eq!(archive_take_count(3, 5), 3);
    assert_eq!(archive_take_count(9, 5), 5);
    assert_eq!(archive_take_count(9, 0), 0);
}

#[test]
fn alt_tab_and_windows_keys_are_swallowed_only_while_active() {
    let mut g = KeyGuard::new();
    assert!(!g.on_key(VK_LWIN, WM_KEYDOWN));
    assert_eq!(g.install(true), InstallOutcome::Activated);
    assert_eq!(g.install(true), InstallOutcome::AlreadyActive);
    assert!(g.on_key(VK_LWIN, WM_KEYDOWN));
    assert!(!g.on_key(VK_TAB, WM_KEYDOWN));
    assert!(!g.on_key(VK_MENU, WM_SYSKEYDOWN));
    assert!(g.on_key(VK_TAB, WM_SYSKEYDOWN));
    assert!(!g.on_key(VK_MENU, WM_KEYUP));
    assert!(!g.on_key(VK_TAB, WM_KEYDOWN));
    g.uninstall();
    assert!(!g.on_key(VK_LWIN, WM_KEYDOWN));
    let mut untrusted = KeyGuard::new();
    assert_eq!(untrusted.install(false), InstallOutcome::NotTrusted);
    assert!(!untrusted.active);
}

#[test]
fn text_helpers_match_std() {
    assert_eq!(trim("  a b \t\n"), "a b");
    assert!(eq_ignore_ascii_case("JSON", "json"));
    assert!(!eq_ignore_ascii_case("json", "jsonx"));
    assert!(str_lt("abc", "abd"));
    assert!(str_lt("ab", "abc"));
    assert!(!str_lt("b", "abc"));
    assert_eq!(u64_text(0), "0");
    assert_eq!(u64_text(1234567890), "1234567890");
    assert_eq!(i64_text(-42), "-42");
    assert_eq!(i64_text(i64::MIN), i64::MIN.to_string());
}

#[test]
fn ios_refresh_pushes_once_per_change() {
    let now_dt = Local.with_ymd_and_hms(2026, 8, 19, 10, 10, 0).unwrap();
    let now = ZonedTime { utc_secs: now_dt.timestamp(), nanos: 0, offset_secs: now_dt.offset().local_minus_utc() };
    let mut st = IosRefreshState::new();
    let first = plan_refresh(&mut st, &now, true, 0, false, Mode::Normal).unwrap();
    assert!(!first.clear_notifications);
    assert_eq!(first.fire_dates.len(), 48);
    let utc_text = |h: u32, m: u32| {
        Local
            .with_ymd_and_hms(2026, 8, 19, h, m, 0)
            .unwrap()
            .with_timezone(&chrono::Utc)
            .to_rfc3339_opts(chrono::SecondsFormat::Secs, true)
    };
    assert_eq!(first.fire_dates[0], utc_text(10, 25));
    assert_eq!(first.fire_dates[1], utc_text(10, 55));
    let la = first.live_activity.unwrap();
    assert_eq!(la.phase, "work");
    assert_eq!(la.phase_end, utc_text(10, 25));
    assert_eq!(la.next_break_start, utc_text(10, 25));
    assert_eq!(la.next_break_end, utc_text(10, 30));
    assert!(plan_refresh(&mut st, &now, true, 0, false, Mode::Normal).is_none());
    wake(&mut st);
    let off = plan_refresh(&mut st, &now, false, 0, false, Mode::Normal).unwrap();
    assert!(off.clear_notifications);
    assert!(off.end_live_activity);
    assert!(off.live_activity.is_none());
    let until_ms = (now_dt.timestamp() + 3 * 3600) * 1000;
    let snoozed = plan_refresh(&mut st, &now, false, until_ms, false, Mode::Normal).unwrap();
    assert!(!snoozed.clear_notifications);
    assert_eq!(snoozed.fire_dates.len(), 42);
    assert_eq!(snoozed.fire_dates[0], utc_text(13, 25));
}

fn entry(path: &str, modified_ns: i128) -> LogFileEntry {
    LogFileEntry { path: path.to_string(), modified_ns }
}

#[test]
fn log_files_are_listed_newest_first_and_ties_keep_listing_order() {
    let entries = vec![
        entry("/logs/Reflectodoro_2026-01-01.log", 100),
        entry("/logs/notes.txt", 900),
        entry("/logs/Reflectodoro.log", 500),
        entry("/logs/Reflectodoro_2026-01-02.log", 300),
        entry("/logs/UPPER.LOG", 800),
        entry("/logs/Reflectodoro_2026-01-03.log", 300),
        entry("/logs/.log", 700),
    ];
    let listed = log_files_newest_first(&entries);
    assert_eq!(
        listed,
        vec![
            "/logs/Reflectodoro.log".to_string(),
            "/logs/Reflectodoro_2026-01-02.log".to_string(),
            "/logs/Reflectodoro_2026-01-03.log".to_string(),
            "/logs/Reflectodoro_2026-01-01.log".to_string(),
        ]
    );
    assert!(log_files_newest_first(&vec![entry("a.txt", 1)]).is_empty());
}
