//! Which mechanism pauses media at the start of a break, and the guards
//! that keep a pause from undoing what the user did during the same break.
//! The platform media calls themselves run outside.
use vstd::prelude::*;

use crate::grid::{parse_zoned, rfc3339_parse};

verus! {

/// Which mechanism macOS uses to pause media.
#[derive(Clone, Copy, Debug, PartialEq, Eq, Structural)]
pub enum MacosPauseStrategy {
    /// `MRMediaRemoteSendCommand(kMRPause)`: no permission, explicit pause.
    MediaRemote,
    /// The synthetic play/pause media key: needs post-event access, and is
    /// a blind toggle.
    MediaKey,
}

/// MediaRemote wins by default; the media key is used when the user forces
/// it or MediaRemote could not be resolved.
pub fn select_macos_pause_strategy(force_media_key: bool, media_remote_available: bool) -> (r: MacosPauseStrategy)
    ensures
        r == (if force_media_key || !media_remote_available {
            MacosPauseStrategy::MediaKey
        } else {
            MacosPauseStrategy::MediaRemote
        }),
{
    if force_media_key || !media_remote_available {
        MacosPauseStrategy::MediaKey
    } else {
        MacosPauseStrategy::MediaRemote
    }
}

/// The label the settings show for a macOS strategy.
pub fn macos_pause_backend(strategy: MacosPauseStrategy) -> (r: &'static str)
    ensures
        strategy == MacosPauseStrategy::MediaRemote ==> r@ == "mediaremote"@,
        strategy == MacosPauseStrategy::MediaKey ==> r@ == "media_key"@,
{
    match strategy {
        MacosPauseStrategy::MediaRemote => "mediaremote",
        MacosPauseStrategy::MediaKey => "media_key",
    }
}

/// The mechanism a break would use right now, as the settings show it: on
/// macOS the strategy chosen from the fallback setting and whether
/// MediaRemote resolved ("mediaremote" or "media_key"); every other platform
/// has exactly one mechanism ("other").
pub fn pause_backend(is_macos: bool, force_media_key: bool, media_remote_resolved: bool) -> (r: &'static str)
    ensures
        !is_macos ==> r@ == "other"@,
        is_macos && (force_media_key || !media_remote_resolved) ==> r@ == "media_key"@,
        is_macos && !force_media_key && media_remote_resolved ==> r@ == "mediaremote"@,
{
    if is_macos {
        macos_pause_backend(select_macos_pause_strategy(force_media_key, media_remote_resolved))
    } else {
        "other"
    }
}

/// `last` happened during the break starting at `slot_start`: both parse,
/// and `last` is the same instant or later (instants, not strings: the two
/// may carry different offsets). Anything missing or unparseable reads as
/// "not during this break", so the caller acts rather than skips.
pub open spec fn within_break_spec(last: Option<Seq<char>>, slot_start: Seq<char>) -> bool {
    match last {
        None => false,
        Some(l) => match (rfc3339_parse(l), rfc3339_parse(slot_start)) {
            (Some(a), Some(b)) => a.0 > b.0 || (a.0 == b.0 && a.1 >= b.1),
            _ => false,
        },
    }
}

pub fn timestamp_is_within_break(last: Option<&str>, slot_start: &str) -> (r: bool)
    ensures
        r == within_break_spec(
            match last {
                Some(l) => Some(l@),
                None => None,
            },
            slot_start@,
        ),
{
    let last = match last {
        Some(l) => l,
        None => { return false; },
    };
    match (parse_zoned(last), parse_zoned(slot_start)) {
        (Some(a), Some(b)) => !a.is_before(&b),
        _ => false,
    }
}

/// What the media-key path does at the start of a break.
#[derive(Clone, Copy, Debug, PartialEq, Eq, Structural)]
pub enum MediaKeyAction {
    /// This break already toggled once: a second toggle would resume.
    SkipAlreadyToggled,
    /// No audio output is running: a toggle could only resume something.
    SkipNothingPlaying,
    /// Without post-event access the key would be dropped silently.
    SkipNoPermission,
    /// Post the toggle and record when.
    Toggle,
}

/// The media-key path's guards, in order: already toggled this break, no
/// output device running (an unknown answer does not stop it), no
/// post-event permission.
pub fn media_key_action(
    last_toggle_at: Option<&str>,
    slot_start: &str,
    output_running: Option<bool>,
    permission: bool,
) -> (r: MediaKeyAction)
    ensures
        ({
            let toggled = within_break_spec(
                match last_toggle_at {
                    Some(l) => Some(l@),
                    None => None,
                },
                slot_start@,
            );
            r == (if toggled {
                MediaKeyAction::SkipAlreadyToggled
            } else if output_running == Some(false) {
                MediaKeyAction::SkipNothingPlaying
            } else if !permission {
                MediaKeyAction::SkipNoPermission
            } else {
                MediaKeyAction::Toggle
            })
        }),
{
    if timestamp_is_within_break(last_toggle_at, slot_start) {
        return MediaKeyAction::SkipAlreadyToggled;
    }
    match output_running {
        Some(false) => { return MediaKeyAction::SkipNothingPlaying; },
        _ => {},
    }
    if !permission {
        return MediaKeyAction::SkipNoPermission;
    }
    MediaKeyAction::Toggle
}

/// The MediaRemote path pauses unless the user pressed play from the break
/// screen during this same break.
pub fn media_remote_should_pause(user_resumed_at: Option<&str>, slot_start: &str) -> (r: bool)
    ensures
        r == !within_break_spec(
            match user_resumed_at {
                Some(l) => Some(l@),
                None => None,
            },
            slot_start@,
        ),
{
    !timestamp_is_within_break(user_resumed_at, slot_start)
}

/// Whether this same break already posted its one media-key toggle.
pub fn already_toggled_this_break(last_toggle_at: Option<&str>, slot_start: &str) -> (r: bool)
    ensures
        r == within_break_spec(
            match last_toggle_at {
                Some(l) => Some(l@),
                None => None,
            },
            slot_start@,
        ),
{
    timestamp_is_within_break(last_toggle_at, slot_start)
}

/// A Core Audio four-character code, big-endian.
pub fn fourcc(code: [u8; 4]) -> (r: u32)
    ensures
        r == code[0] as int * 0x1000000 + code[1] as int * 0x10000 + code[2] as int * 0x100 + code[3] as int,
{
    (code[0] as u32) * 0x1000000 + (code[1] as u32) * 0x10000 + (code[2] as u32) * 0x100 + code[3] as u32
}

/// A Core Audio property address on the main element.
#[derive(Clone, Copy, Debug, PartialEq, Eq, Structural)]
pub struct AudioPropertyAddress {
    pub selector: u32,
    pub scope: u32,
    pub element: u32,
}

pub fn property_address(selector: u32, scope: u32) -> (r: AudioPropertyAddress)
    ensures
        r == (AudioPropertyAddress { selector, scope, element: 0 }),
{
    AudioPropertyAddress { selector, scope, element: 0 }
}

/// Whether any audio output device is running, from what each device
/// reported (`None`: no output streams, or it could not be asked; `Some`:
/// whether it is running somewhere): yes as soon as one runs; no when some
/// output device answered and none runs; unknown when none answered, so the
/// caller can fail open.
pub fn any_output_running(devices: &Vec<Option<bool>>) -> (r: Option<bool>)
    ensures
        r == (if exists|i: int| 0 <= i < devices.len() && #[trigger] devices@[i] == Some(true) {
            Some(true)
        } else if exists|i: int| 0 <= i < devices.len() && #[trigger] devices@[i] == Some(false) {
            Some(false)
        } else {
            None::<bool>
        }),
{
    let mut queried = false;
    let mut i: usize = 0;
    while i < devices.len()
        invariant
            0 <= i <= devices.len(),
            forall|j: int| 0 <= j < i ==> #[trigger] devices@[j] != Some(true),
            queried <==> exists|j: int| 0 <= j < i && #[trigger] devices@[j] == Some(false),
        decreases devices.len() - i,
    {
        match devices[i] {
            Some(true) => {
                return Some(true);
            },
            Some(false) => {
                queried = true;
            },
            None => {},
        }
        i = i + 1;
    }
    if queried {
        Some(false)
    } else {
        None
    }
}

} // verus!
