//! Foreground-app focus tracking ("screen time"): the in-progress session,
//! the sessions closed by real focus changes and waiting to be shipped, and
//! the flush loop's suspend and checkpoint decisions. The OS watchers and
//! the event emission run outside and call in here.
use vstd::prelude::*;

use crate::grid::{format_utc_millis, utc_millis_text, STAMP_MAX, STAMP_MIN};

verus! {

/// Sessions shorter than this are dropped (5 s, in nanoseconds).
pub const MIN_SESSION_NS: i128 = 5_000_000_000;

/// A flush tick waking later than this past its target is a suspend gap
/// (120 s, in nanoseconds).
pub const SUSPEND_GAP_NS: i128 = 120_000_000_000;

/// How often an in-progress session is split for crash durability (15 min,
/// in nanoseconds).
pub const CHECKPOINT_NS: i128 = 900_000_000_000;

/// An instant on the system clock, in UTC.
#[derive(Clone, Copy, Debug, PartialEq, Eq, Structural)]
pub struct UtcTime {
    pub secs: i64,
    pub nanos: u32,
}

impl UtcTime {
    pub open spec fn wf(self) -> bool {
        &&& STAMP_MIN <= self.secs <= STAMP_MAX
        &&& self.nanos < 1_000_000_000
    }

    pub open spec fn ns(self) -> int {
        self.secs * 1_000_000_000 + self.nanos
    }
}

/// `b - a` in nanoseconds.
pub fn diff_ns(a: &UtcTime, b: &UtcTime) -> (r: i128)
    requires
        a.wf(),
        b.wf(),
    ensures
        r == b.ns() - a.ns(),
{
    ((b.secs as i128) - (a.secs as i128)) * 1_000_000_000 + (b.nanos as i128) - (a.nanos as i128)
}

/// One closed focus session, as handed to the frontend.
#[derive(Clone, Debug)]
pub struct ScreenTimeSession {
    pub app_id: String,
    pub display_name: String,
    pub platform: String,
    pub started_at: String,
    pub ended_at: String,
}

/// What a platform callback resolves the focused window to.
#[derive(Clone, Debug)]
pub struct FocusedApp {
    pub app_id: String,
    pub display_name: String,
}

/// The in-progress session: whatever currently has focus, since when.
#[derive(Clone, Debug)]
pub struct PendingSession {
    pub app_id: String,
    pub display_name: String,
    pub started_at: UtcTime,
}

/// The session a closed pending session becomes when it ends at `ended`:
/// nothing when it lasted under five seconds.
pub open spec fn closed_session_ok(p: PendingSession, ended: UtcTime, platform: Seq<char>, s: ScreenTimeSession) -> bool {
    &&& s.app_id@ == p.app_id@
    &&& s.display_name@ == p.display_name@
    &&& s.platform@ == platform
    &&& s.started_at@ == utc_millis_text(p.started_at.secs, p.started_at.nanos)
    &&& s.ended_at@ == utc_millis_text(ended.secs, ended.nanos)
}

/// Whether a session from `start` to `end` is long enough to keep (a
/// negative length counts as zero).
pub open spec fn long_enough(start: UtcTime, end: UtcTime) -> bool {
    end.ns() - start.ns() >= MIN_SESSION_NS
}

/// What closing `cur` at `at` leaves in the flush queue: the closed
/// session appended when it was long enough, the queue unchanged otherwise.
pub open spec fn queued_after_close(
    cur: Option<PendingSession>,
    pending: Seq<ScreenTimeSession>,
    at: UtcTime,
    platform: Seq<char>,
    after: Seq<ScreenTimeSession>,
) -> bool {
    match cur {
        Some(p) => if long_enough(p.started_at, at) {
            after.len() == pending.len() + 1 && after.drop_last() == pending && closed_session_ok(
                p,
                at,
                platform,
                after.last(),
            )
        } else {
            after == pending
        },
        None => after == pending,
    }
}

/// The same app's session reopened at `at` (nothing when none was open).
pub open spec fn reopened_at(cur: Option<PendingSession>, at: UtcTime, after: Option<PendingSession>) -> bool {
    match cur {
        Some(p) => after matches Some(q) && q.app_id@ == p.app_id@ && q.display_name@ == p.display_name@
            && q.started_at == at,
        None => after is None,
    }
}

/// The tracker: the in-progress session and the closed ones awaiting a
/// flush.
#[derive(Clone, Debug)]
pub struct FocusTracker {
    pub current: Option<PendingSession>,
    pub pending_flush: Vec<ScreenTimeSession>,
}

impl FocusTracker {
    pub open spec fn wf(&self) -> bool {
        self.current matches Some(p) ==> p.started_at.wf()
    }

    pub fn new() -> (r: Self)
        ensures
            r.current is None,
            r.pending_flush@.len() == 0,
            r.wf(),
    {
        FocusTracker { current: None, pending_flush: Vec::new() }
    }

    /// Takes the in-progress session out and closes it at `ended_at`;
    /// sessions under five seconds are dropped.
    pub fn take_closed(&mut self, ended_at: &UtcTime, platform: &str) -> (r: Option<ScreenTimeSession>)
        requires
            old(self).wf(),
            ended_at.wf(),
        ensures
            final(self).current is None,
            final(self).pending_flush@ == old(self).pending_flush@,
            final(self).wf(),
            match old(self).current {
                None => r is None,
                Some(p) => if long_enough(p.started_at, *ended_at) {
                    r matches Some(s) && closed_session_ok(p, *ended_at, platform@, s)
                } else {
                    r is None
                },
            },
    {
        let pending = match self.current.take() {
            Some(p) => p,
            None => { return None; },
        };
        let elapsed = diff_ns(&pending.started_at, ended_at);
        if elapsed < MIN_SESSION_NS {
            return None;
        }
        Some(ScreenTimeSession {
            app_id: pending.app_id,
            display_name: pending.display_name,
            platform: platform.to_owned(),
            started_at: format_utc_millis(pending.started_at.secs, pending.started_at.nanos),
            ended_at: format_utc_millis(ended_at.secs, ended_at.nanos),
        })
    }

    fn queue(&mut self, session: Option<ScreenTimeSession>)
        ensures
            final(self).current == old(self).current,
            final(self).pending_flush@ == (match session {
                Some(s) => old(self).pending_flush@.push(s),
                None => old(self).pending_flush@,
            }),
    {
        if let Some(s) = session {
            self.pending_flush.push(s);
        }
    }

    /// A focus change reported by a platform watcher (`None`: focus went
    /// somewhere not attributed, such as this app itself). Ignored while
    /// tracking is off, and when the same app is focused again; otherwise
    /// the in-progress session is closed (and queued when long enough) and
    /// the new app's session opened at `now`.
    pub fn record_focus_change(
        &mut self,
        tracking_enabled: bool,
        new_app: Option<FocusedApp>,
        now: &UtcTime,
        platform: &str,
    )
        requires
            old(self).wf(),
            now.wf(),
        ensures
            final(self).wf(),
            ({
                let same = old(self).current matches Some(p) && new_app matches Some(a) && p.app_id@
                    == a.app_id@;
                if !tracking_enabled || same {
                    final(self).current == old(self).current && final(self).pending_flush@ == old(
                        self,
                    ).pending_flush@
                } else {
                    &&& match new_app {
                        Some(a) => final(self).current matches Some(p) && p.app_id == a.app_id
                            && p.display_name == a.display_name && p.started_at == *now,
                        None => final(self).current is None,
                    }
                    &&& match old(self).current {
                        Some(p) => if long_enough(p.started_at, *now) {
                            final(self).pending_flush@.len() == old(self).pending_flush@.len() + 1
                                && final(self).pending_flush@.drop_last() == old(self).pending_flush@
                                && closed_session_ok(p, *now, platform@, final(self).pending_flush@.last())
                        } else {
                            final(self).pending_flush@ == old(self).pending_flush@
                        },
                        None => final(self).pending_flush@ == old(self).pending_flush@,
                    }
                }
            }),
    {
        if !tracking_enabled {
            return;
        }
        let same = match (&self.current, &new_app) {
            (Some(p), Some(a)) => p.app_id == a.app_id,
            _ => false,
        };
        if same {
            return;
        }
        let closed = self.take_closed(now, platform);
        self.current = match new_app {
            Some(a) => Some(PendingSession { app_id: a.app_id, display_name: a.display_name, started_at: *now }),
            None => None,
        };
        let ghost before = self.pending_flush@;
        self.queue(closed);
        proof {
            if closed is Some {
                assert(self.pending_flush@.drop_last() =~= before);
            }
        }
    }

    /// Splits the in-progress session at `at` and reopens the same app
    /// from there (crash durability only). Nothing happens without one.
    pub fn split_current_session(&mut self, at: &UtcTime, platform: &str)
        requires
            old(self).wf(),
            at.wf(),
        ensures
            final(self).wf(),
            match old(self).current {
                None => final(self).current is None && final(self).pending_flush@ == old(
                    self,
                ).pending_flush@,
                Some(p) => {
                    &&& final(self).current matches Some(q) && q.app_id@ == p.app_id@
                        && q.display_name@ == p.display_name@ && q.started_at == *at
                    &&& if long_enough(p.started_at, *at) {
                        final(self).pending_flush@.len() == old(self).pending_flush@.len() + 1
                            && final(self).pending_flush@.drop_last() == old(self).pending_flush@
                            && closed_session_ok(p, *at, platform@, final(self).pending_flush@.last())
                    } else {
                        final(self).pending_flush@ == old(self).pending_flush@
                    }
                },
            },
    {
        let (app_id, display_name) = match &self.current {
            Some(p) => (p.app_id.clone(), p.display_name.clone()),
            None => { return; },
        };
        let closed = self.take_closed(at, platform);
        self.current = Some(PendingSession { app_id, display_name, started_at: *at });
        let ghost before = self.pending_flush@;
        self.queue(closed);
        proof {
            if closed is Some {
                assert(self.pending_flush@.drop_last() =~= before);
            }
        }
    }

    /// Closes the in-progress session without opening a new one (tracking
    /// switched off).
    pub fn close_current_session(&mut self, now: &UtcTime, platform: &str)
        requires
            old(self).wf(),
            now.wf(),
        ensures
            final(self).wf(),
            final(self).current is None,
            match old(self).current {
                Some(p) => if long_enough(p.started_at, *now) {
                    final(self).pending_flush@.len() == old(self).pending_flush@.len() + 1
                        && final(self).pending_flush@.drop_last() == old(self).pending_flush@
                        && closed_session_ok(p, *now, platform@, final(self).pending_flush@.last())
                } else {
                    final(self).pending_flush@ == old(self).pending_flush@
                },
                None => final(self).pending_flush@ == old(self).pending_flush@,
            },
    {
        let closed = self.take_closed(now, platform);
        let ghost before = self.pending_flush@;
        self.queue(closed);
        proof {
            if closed is Some {
                assert(self.pending_flush@.drop_last() =~= before);
            }
        }
    }

    /// The focused app and how long it has been focused, in whole
    /// milliseconds (zero when the clock went backwards).
    pub fn current_session_elapsed_ms(&self, now: &UtcTime) -> (r: Option<(String, String, i64)>)
        requires
            self.wf(),
            now.wf(),
        ensures
            match self.current {
                None => r is None,
                Some(p) => r matches Some(t) && t.0@ == p.app_id@ && t.1@ == p.display_name@ && t.2 == (
                if now.ns() - p.started_at.ns() > 0 {
                    (now.ns() - p.started_at.ns()) / 1_000_000
                } else {
                    0
                }),
            },
    {
        match &self.current {
            None => None,
            Some(p) => {
                let d = diff_ns(&p.started_at, now);
                let ms: i64 = if d > 0 { (d / 1_000_000) as i64 } else { 0 };
                Some((p.app_id.clone(), p.display_name.clone(), ms))
            },
        }
    }

    /// Takes every buffered session out for one batch.
    pub fn drain(&mut self) -> (r: Vec<ScreenTimeSession>)
        ensures
            r@ == old(self).pending_flush@,
            final(self).pending_flush@.len() == 0,
            final(self).current == old(self).current,
    {
        let mut out: Vec<ScreenTimeSession> = Vec::new();
        std::mem::swap(&mut out, &mut self.pending_flush);
        out
    }

    /// Puts a batch that could not be shipped back in front of whatever
    /// was buffered since.
    pub fn requeue_front(&mut self, batch: Vec<ScreenTimeSession>)
        ensures
            final(self).pending_flush@ == batch@ + old(self).pending_flush@,
            final(self).current == old(self).current,
    {
        let mut all = batch;
        let mut rest: Vec<ScreenTimeSession> = Vec::new();
        std::mem::swap(&mut rest, &mut self.pending_flush);
        all.append(&mut rest);
        self.pending_flush = all;
    }

    /// One flush tick at `now`, aimed at `expected_wake`, with
    /// `since_checkpoint_ns` elapsed since the last checkpoint. A suspend
    /// gap truncates the session at `expected_wake` and restarts its
    /// reopened half at `now`; otherwise a due checkpoint splits it at
    /// `now`. Returns whether the checkpoint clock restarts.
    pub fn flush_tick(
        &mut self,
        now: &UtcTime,
        expected_wake: &UtcTime,
        since_checkpoint_ns: i128,
        platform: &str,
    ) -> (r: bool)
        requires
            old(self).wf(),
            now.wf(),
            expected_wake.wf(),
        ensures
            final(self).wf(),
            ({
                let gap = now.ns() - expected_wake.ns() > SUSPEND_GAP_NS;
                let cut_at = if gap { *expected_wake } else { *now };
                &&& r == (gap || since_checkpoint_ns >= CHECKPOINT_NS)
                &&& r ==> queued_after_close(
                    old(self).current,
                    old(self).pending_flush@,
                    cut_at,
                    platform@,
                    final(self).pending_flush@,
                )
                &&& r ==> reopened_at(old(self).current, *now, final(self).current)
                &&& !r ==> final(self).current == old(self).current && final(self).pending_flush@
                    == old(self).pending_flush@
            }),
    {
        let overslept = diff_ns(expected_wake, now);
        if overslept > SUSPEND_GAP_NS {
            self.split_current_session(expected_wake, platform);
            let cur = self.current.take();
            self.current = match cur {
                Some(p) => Some(PendingSession { app_id: p.app_id, display_name: p.display_name, started_at: *now }),
                None => None,
            };
            true
        } else if since_checkpoint_ns >= CHECKPOINT_NS {
            self.split_current_session(now, platform);
            true
        } else {
            false
        }
    }
}

/// The focused app and how long it has been focused, as the entries page
/// blends it into today's breakdown.
#[derive(Clone, Debug)]
pub struct CurrentSessionSnapshot {
    pub app_id: String,
    pub display_name: String,
    pub elapsed_ms: i64,
}

/// The in-progress session as a snapshot; `None` when nothing is tracked.
pub fn current_session_snapshot(tracker: &FocusTracker, now: &UtcTime) -> (r: Option<CurrentSessionSnapshot>)
    requires
        tracker.wf(),
        now.wf(),
    ensures
        match tracker.current {
            None => r is None,
            Some(p) => r matches Some(s) && s.app_id@ == p.app_id@ && s.display_name@ == p.display_name@
                && s.elapsed_ms == (if now.ns() - p.started_at.ns() > 0 {
                (now.ns() - p.started_at.ns()) / 1_000_000
            } else {
                0
            }),
        },
{
    match tracker.current_session_elapsed_ms(now) {
        Some((app_id, display_name, elapsed_ms)) => Some(CurrentSessionSnapshot { app_id, display_name, elapsed_ms }),
        None => None,
    }
}

} // verus!
