//! The plain-text system report behind "Export system info": which lines
//! it has and in what order. The machine (OS name, monitors, theme, the
//! Android bridge) is asked outside; the readings come in here.
use vstd::prelude::*;

use crate::merge::{join_lines, join_spec};
use crate::text::{concat, decimal_spec, u64_text};

verus! {

/// What the window reported as the system theme.
#[derive(Clone, Copy, Debug, PartialEq, Eq, Structural)]
pub enum ThemeReading {
    Light,
    Dark,
    /// A theme the report has no name for.
    Other,
    /// The window could not be asked.
    Unavailable,
}

pub open spec fn theme_name_spec(t: ThemeReading) -> Seq<char> {
    match t {
        ThemeReading::Light => "Light"@,
        ThemeReading::Dark => "Dark"@,
        _ => "unknown"@,
    }
}

/// The theme's name in the report: "Light", "Dark", or "unknown".
pub fn theme_line(t: ThemeReading) -> (r: String)
    ensures
        r@ == theme_name_spec(t),
{
    match t {
        ThemeReading::Light => String::from_str("Light"),
        ThemeReading::Dark => String::from_str("Dark"),
        _ => String::from_str("unknown"),
    }
}

/// What the Android bridge reports of the device (a field it leaves out
/// reads as empty, or as zero for the numbers).
#[derive(Clone, Debug)]
pub struct AndroidSystemInfo {
    pub model: String,
    pub manufacturer: String,
    pub android_release: String,
    pub sdk_int: u64,
    pub width_px: u64,
    pub height_px: u64,
    pub density_dpi: u64,
}

pub open spec fn android_lines_spec(info: Option<AndroidSystemInfo>) -> Seq<Seq<char>> {
    match info {
        Some(v) => seq![
            "OS: Android "@ + v.android_release@ + " (SDK "@ + decimal_spec(v.sdk_int as nat)
                + ")"@,
            "Device: "@ + v.manufacturer@ + " "@ + v.model@,
            Seq::<char>::empty(),
            "Displays:"@,
            "  Screen: "@ + decimal_spec(v.width_px as nat) + "x"@ + decimal_spec(
                v.height_px as nat,
            ) + " @ "@ + decimal_spec(v.density_dpi as nat) + " dpi"@,
        ],
        None => seq!["OS: Android (version/device/display unavailable)"@],
    }
}

/// The Android part of the report; `None` when the bridge call failed.
pub fn android_lines(info: &Option<AndroidSystemInfo>) -> (r: Vec<String>)
    ensures
        r.deep_view() == android_lines_spec(*info),
{
    let mut out: Vec<String> = Vec::new();
    match info {
        Some(v) => {
            let a = concat("OS: Android ", v.android_release.as_str());
            let a = concat(a.as_str(), " (SDK ");
            let a = concat(a.as_str(), u64_text(v.sdk_int).as_str());
            let a = concat(a.as_str(), ")");
            out.push(a);
            let b = concat("Device: ", v.manufacturer.as_str());
            let b = concat(b.as_str(), " ");
            let b = concat(b.as_str(), v.model.as_str());
            out.push(b);
            out.push(String::new());
            out.push(String::from_str("Displays:"));
            let c = concat("  Screen: ", u64_text(v.width_px).as_str());
            let c = concat(c.as_str(), "x");
            let c = concat(c.as_str(), u64_text(v.height_px).as_str());
            let c = concat(c.as_str(), " @ ");
            let c = concat(c.as_str(), u64_text(v.density_dpi).as_str());
            let c = concat(c.as_str(), " dpi");
            out.push(c);
        },
        None => {
            out.push(String::from_str("OS: Android (version/device/display unavailable)"));
        },
    }
    proof {
        assert(out.deep_view() =~= android_lines_spec(*info));
    }
    out
}

/// The monitor block: one line per monitor, a note when none was reported,
/// another when the monitors could not be listed.
pub open spec fn display_block_spec(monitors: Option<Seq<Seq<char>>>) -> Seq<Seq<char>> {
    match monitors {
        Some(m) => if m.len() == 0 {
            seq!["  (no monitors reported)"@]
        } else {
            m
        },
        None => seq!["  (unavailable)"@],
    }
}

pub open spec fn desktop_lines_spec(
    os: Seq<char>,
    session_type: Option<Seq<char>>,
    monitors: Option<Seq<Seq<char>>>,
) -> Seq<Seq<char>> {
    let head = seq!["OS: "@ + os];
    let session = match session_type {
        Some(s) => seq!["Session type: "@ + s],
        None => Seq::<Seq<char>>::empty(),
    };
    head + session + seq![Seq::<char>::empty(), "Displays:"@] + display_block_spec(monitors)
}

pub open spec fn opt_str_view(o: Option<String>) -> Option<Seq<char>> {
    match o {
        Some(s) => Some(s@),
        None => None,
    }
}

pub open spec fn opt_lines_view(o: Option<Vec<String>>) -> Option<Seq<Seq<char>>> {
    match o {
        Some(v) => Some(v.deep_view()),
        None => None,
    }
}

/// The desktop part of the report: the OS line, the session type where
/// there is one (Linux), then the monitor block.
pub fn desktop_lines(os: &str, session_type: &Option<String>, monitors: &Option<Vec<String>>) -> (r: Vec<String>)
    ensures
        r.deep_view() == desktop_lines_spec(
            os@,
            opt_str_view(*session_type),
            opt_lines_view(*monitors),
        ),
{
    let mut out: Vec<String> = Vec::new();
    out.push(concat("OS: ", os));
    if let Some(s) = session_type {
        out.push(concat("Session type: ", s.as_str()));
    }
    out.push(String::new());
    out.push(String::from_str("Displays:"));
    let ghost before = out.deep_view();
    match monitors {
        Some(m) => {
            if m.len() == 0 {
                out.push(String::from_str("  (no monitors reported)"));
            } else {
                let mut i: usize = 0;
                while i < m.len()
                    invariant
                        0 <= i <= m.len(),
                        out.deep_view() == before + m.deep_view().take(i as int),
                    decreases m.len() - i,
                {
                    let ghost prev = out.deep_view();
                    let c = m[i].clone();
                    out.push(c);
                    proof {
                        assert(out.deep_view() =~= prev.push(m.deep_view()[i as int]));
                        assert(m.deep_view().take(i + 1) =~= m.deep_view().take(i as int).push(
                            m.deep_view()[i as int],
                        ));
                        assert(out.deep_view() =~= before + m.deep_view().take(i + 1));
                    }
                    i = i + 1;
                }
                proof {
                    assert(m.deep_view().take(m.len() as int) =~= m.deep_view());
                }
            }
        },
        None => {
            out.push(String::from_str("  (unavailable)"));
        },
    }
    proof {
        assert(out.deep_view() =~= desktop_lines_spec(
            os@,
            opt_str_view(*session_type),
            opt_lines_view(*monitors),
        ));
    }
    out
}

pub open spec fn report_lines_spec(
    version: Seq<char>,
    arch: Seq<char>,
    platform: Seq<Seq<char>>,
    theme: ThemeReading,
) -> Seq<Seq<char>> {
    seq![
        "Reflectodoro system info"@,
        "App version: "@ + version,
        "Architecture: "@ + arch,
        Seq::<char>::empty(),
    ] + platform + seq![Seq::<char>::empty(), "System theme: "@ + theme_name_spec(theme)]
}

/// The whole report: a header with the app version and architecture, the
/// platform part, and the system theme, one item per line, ending in a
/// newline.
pub fn system_report(version: &str, arch: &str, platform_lines: &Vec<String>, theme: ThemeReading) -> (r: String)
    ensures
        r@ == join_spec(report_lines_spec(version@, arch@, platform_lines.deep_view(), theme))
            + "\n"@,
{
    let mut lines: Vec<String> = Vec::new();
    lines.push(String::from_str("Reflectodoro system info"));
    lines.push(concat("App version: ", version));
    lines.push(concat("Architecture: ", arch));
    lines.push(String::new());
    let ghost before = lines.deep_view();
    let mut i: usize = 0;
    while i < platform_lines.len()
        invariant
            0 <= i <= platform_lines.len(),
            lines.deep_view() == before + platform_lines.deep_view().take(i as int),
        decreases platform_lines.len() - i,
    {
        let ghost prev = lines.deep_view();
        let c = platform_lines[i].clone();
        lines.push(c);
        proof {
            assert(lines.deep_view() =~= prev.push(platform_lines.deep_view()[i as int]));
            assert(platform_lines.deep_view().take(i + 1) =~= platform_lines.deep_view().take(
                i as int,
            ).push(platform_lines.deep_view()[i as int]));
            assert(lines.deep_view() =~= before + platform_lines.deep_view().take(i + 1));
        }
        i = i + 1;
    }
    proof {
        assert(platform_lines.deep_view().take(platform_lines.len() as int)
            =~= platform_lines.deep_view());
    }
    let ghost mid = lines.deep_view();
    lines.push(String::new());
    let t = theme_line(theme);
    lines.push(concat("System theme: ", t.as_str()));
    proof {
        assert(lines.deep_view() =~= mid.push(Seq::<char>::empty()).push("System theme: "@ + theme_name_spec(theme)));
        assert(lines.deep_view() =~= report_lines_spec(
            version@,
            arch@,
            platform_lines.deep_view(),
            theme,
        ));
    }
    let body = join_lines(lines.as_slice());
    concat(body.as_str(), "\n")
}

} // verus!
