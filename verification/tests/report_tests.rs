use reflectodoro::commands::session_type_line;
use reflectodoro::report::{
    android_lines, desktop_lines, system_report, theme_line, AndroidSystemInfo, ThemeReading,
};

#[test]
fn theme_names() {
    assert_eq!(theme_line(ThemeReading::Light), "Light");
    assert_eq!(theme_line(ThemeReading::Dark), "Dark");
    assert_eq!(theme_line(ThemeReading::Other), "unknown");
    assert_eq!(theme_line(ThemeReading::Unavailable), "unknown");
}

#[test]
fn linux_report_has_session_type_and_monitors() {
    let platform = desktop_lines(
        "Ubuntu 24.04",
        &Some(session_type_line(true)),
        &Some(vec!["  Monitor 1: 1920x1080 @ scale 1.00, position (0, 0) [primary]".to_string()]),
    );
    let report = system_report("0.14.2", "x86_64", &platform, ThemeReading::Dark);
    assert_eq!(
        report,
        "Reflectodoro system info\nApp version: 0.14.2\nArchitecture: x86_64\n\nOS: Ubuntu 24.04\n\
Session type: X11\n\nDisplays:\n  Monitor 1: 1920x1080 @ scale 1.00, position (0, 0) [primary]\n\n\
System theme: Dark\n"
    );
}

#[test]
fn monitor_block_notes_when_nothing_is_known() {
    assert_eq!(
        desktop_lines("macOS 15", &None, &Some(vec![])),
        vec!["OS: macOS 15", "", "Displays:", "  (no monitors reported)"]
    );
    assert_eq!(
        desktop_lines("Windows 11", &None, &None),
        vec!["OS: Windows 11", "", "Displays:", "  (unavailable)"]
    );
}

#[test]
fn android_lines_from_the_bridge() {
    let info = AndroidSystemInfo {
        model: "Pixel 8".to_string(),
        manufacturer: "Google".to_string(),
        android_release: "15".to_string(),
        sdk_int: 35,
        width_px: 1080,
        height_px: 2400,
        density_dpi: 420,
    };
    assert_eq!(
        android_lines(&Some(info)),
        vec![
            "OS: Android 15 (SDK 35)",
            "Device: Google Pixel 8",
            "",
            "Displays:",
            "  Screen: 1080x2400 @ 420 dpi",
        ]
    );
    assert_eq!(android_lines(&None), vec!["OS: Android (version/device/display unavailable)"]);
}
