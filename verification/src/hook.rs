//! The break-time keyboard suppression: which key events the low-level
//! hook swallows, and the on/off guard the hook consults. Installing the
//! platform hook itself happens outside.
use vstd::prelude::*;

verus! {

pub const VK_TAB: u32 = 0x09;
pub const VK_MENU: u32 = 0x12;
pub const VK_LWIN: u32 = 0x5B;
pub const VK_RWIN: u32 = 0x5C;
pub const WM_KEYDOWN: u32 = 0x0100;
pub const WM_KEYUP: u32 = 0x0101;
pub const WM_SYSKEYDOWN: u32 = 0x0104;
pub const WM_SYSKEYUP: u32 = 0x0105;

/// Whether a break is being enforced, and whether Alt is held.
#[derive(Clone, Copy, Debug, PartialEq, Eq, Structural)]
pub struct KeyGuard {
    pub active: bool,
    pub alt_down: bool,
}

/// What `install` found.
#[derive(Clone, Copy, Debug, PartialEq, Eq, Structural)]
pub enum InstallOutcome {
    AlreadyActive,
    /// The platform refused (macOS without Accessibility access).
    NotTrusted,
    Activated,
}

impl KeyGuard {
    pub fn new() -> (r: Self)
        ensures
            !r.active,
            !r.alt_down,
    {
        KeyGuard { active: false, alt_down: false }
    }

    /// Turns suppression on; idempotent, and refused when the platform
    /// does not trust the app.
    pub fn install(&mut self, trusted: bool) -> (r: InstallOutcome)
        ensures
            old(self).active ==> r == InstallOutcome::AlreadyActive && final(self).active,
            !old(self).active && !trusted ==> r == InstallOutcome::NotTrusted && !final(self).active,
            !old(self).active && trusted ==> r == InstallOutcome::Activated && final(self).active,
            final(self).alt_down == old(self).alt_down,
    {
        if self.active {
            return InstallOutcome::AlreadyActive;
        }
        if !trusted {
            return InstallOutcome::NotTrusted;
        }
        self.active = true;
        InstallOutcome::Activated
    }

    /// Turns suppression off (the hook stays installed for the next break).
    pub fn uninstall(&mut self)
        ensures
            !final(self).active,
            final(self).alt_down == old(self).alt_down,
    {
        self.active = false;
    }

    /// One key event through the hook: tracks Alt, and swallows Alt+Tab and
    /// either Windows key on key-down while active. Bare Tab passes.
    pub fn on_key(&mut self, vk: u32, msg: u32) -> (suppress: bool)
        ensures
            ({
                let down = msg == WM_KEYDOWN || msg == WM_SYSKEYDOWN;
                let up = msg == WM_KEYUP || msg == WM_SYSKEYUP;
                let alt = if old(self).active && vk == VK_MENU && down {
                    true
                } else if old(self).active && vk == VK_MENU && up {
                    false
                } else {
                    old(self).alt_down
                };
                &&& final(self).alt_down == alt
                &&& final(self).active == old(self).active
                &&& suppress == (old(self).active && down && ((vk == VK_TAB && alt) || vk == VK_LWIN
                    || vk == VK_RWIN))
            }),
    {
        if !self.active {
            return false;
        }
        let is_down = msg == WM_KEYDOWN || msg == WM_SYSKEYDOWN;
        let is_up = msg == WM_KEYUP || msg == WM_SYSKEYUP;
        if vk == VK_MENU {
            if is_down {
                self.alt_down = true;
            } else if is_up {
                self.alt_down = false;
            }
        }
        if is_down {
            let alt_tab = vk == VK_TAB && self.alt_down;
            let win_key = vk == VK_LWIN || vk == VK_RWIN;
            if alt_tab || win_key {
                return true;
            }
        }
        false
    }
}

} // verus!
