//! The break overlay's reflection bookkeeping: splitting one submitted text
//! across the slots it covers, the canonical form slot keys are stored in,
//! and the walk back over the uncovered slots a reflection also answers for.
use vstd::prelude::*;

use crate::grid::{parse_zoned, rfc3339_parse, format_utc_millis, utc_millis_text, ZonedTime};
use crate::text::{clean_lines, clean_lines_of, trim, trim_spec, eq_ignore_ascii_case, eq_ignore_ascii_case_spec};

verus! {

/// How many slots back a reflection may cascade.
pub const MAX_MISSED_SLOT_LOOKBACK: u32 = 96;

/// One line per covered slot: when more than one slot is covered and the
/// text has exactly as many non-blank lines as slots, those lines (trimmed,
/// in slot order); otherwise `None` (every slot gets the whole text).
pub fn split_reflection_for_slots(text: &str, covered_slots: &Vec<String>) -> (r: Option<Vec<String>>)
    ensures
        (covered_slots.len() > 1 && clean_lines(text@).len() == covered_slots.len()) ==> (r matches Some(
            lines,
        ) && lines.deep_view() == clean_lines(text@)),
        !(covered_slots.len() > 1 && clean_lines(text@).len() == covered_slots.len()) ==> r is None,
{
    if covered_slots.len() <= 1 {
        return None;
    }
    let lines = clean_lines_of(text);
    proof {
        assert(lines.deep_view().len() == lines.len());
    }
    if lines.len() != covered_slots.len() {
        return None;
    }
    Some(lines)
}

/// A saved text with nothing worth previewing: blank, or just "skip" in
/// any ASCII case.
pub open spec fn is_skip_only_spec(text: Seq<char>) -> bool {
    trim_spec(text).len() == 0 || eq_ignore_ascii_case_spec(trim_spec(text), "skip"@)
}

pub fn is_skip_only(text: &str) -> (r: bool)
    ensures
        r == is_skip_only_spec(text@),
{
    let t = trim(text);
    t.as_str().is_empty() || eq_ignore_ascii_case(t.as_str(), "skip")
}

/// A parsed instant in the form `Date.prototype.toISOString()` writes:
/// UTC, milliseconds, `Z`.
pub open spec fn canonical_of(t: (i64, u32, i32)) -> Seq<char> {
    utc_millis_text(t.0, t.1)
}

/// Reparses an RFC 3339 string and re-emits it in the frontend's own
/// `toISOString()` form, so slot keys written by either side compare equal
/// as strings. `None` when it does not parse.
pub fn canonical_iso(iso: &str) -> (r: Option<String>)
    ensures
        match rfc3339_parse(iso@) {
            Some(t) => r matches Some(s) && s@ == canonical_of(t),
            None => r is None,
        },
{
    match parse_zoned(iso) {
        Some(z) => Some(format_utc_millis(z.utc_secs, z.nanos)),
        None => None,
    }
}

/// The slot 30 minutes before `slot_iso` (reflection slots sit on a fixed
/// 30-minute pitch in every mode), in canonical form.
pub fn previous_slot_iso(slot_iso: &str) -> (r: Option<String>)
    ensures
        match rfc3339_parse(slot_iso@) {
            Some(t) => r matches Some(s) && s@ == utc_millis_text((t.0 - 1800) as i64, t.1),
            None => r is None,
        },
{
    match parse_zoned(slot_iso) {
        Some(z) => {
            proof {
                vstd::arithmetic::div_mod::lemma_mod_multiples_vanish(-30, z.utc_secs as int, 60);
            }
            Some(format_utc_millis(z.utc_secs - 1800, z.nanos))
        },
        None => None,
    }
}

/// Epoch milliseconds of a parsed instant (`timestamp_millis`).
pub open spec fn parsed_ms(t: (i64, u32, i32)) -> int {
    t.0 * 1000 + t.1 / 1_000_000
}

/// Parses an RFC 3339 string to epoch milliseconds.
pub fn rfc3339_millis(s: &str) -> (r: Option<i64>)
    ensures
        match rfc3339_parse(s@) {
            Some(t) => r == Some(parsed_ms(t) as i64),
            None => r is None,
        },
{
    match parse_zoned(s) {
        Some(z) => Some(z.utc_secs * 1000 + (z.nanos / 1_000_000) as i64),
        None => None,
    }
}

/// The walk back from the current slot over the slots a reflection also
/// answers for: each earlier slot (30 minutes back) joins, oldest first,
/// until one is already covered, predates the first run, fails to parse,
/// or the lookback cap is reached.
#[derive(Clone, Debug)]
pub struct MissedSlotWalk {
    /// The slots collected so far, oldest first; the current slot last.
    pub slots: Vec<String>,
    pub cursor: String,
    pub steps: u32,
    pub first_run_ms: Option<i64>,
    pub done: bool,
}

/// What the walk asks next.
#[derive(Clone, Debug)]
pub enum WalkStep {
    /// Check whether this slot is already covered, then report back.
    CheckCovered(String),
    /// The walk is over.
    Finished,
}

/// `a` is the slot 30 minutes before `b` (in the form `previous_slot_iso`
/// writes it).
pub open spec fn is_half_hour_before(a: Seq<char>, b: Seq<char>) -> bool {
    rfc3339_parse(b) matches Some(t) && a == utc_millis_text((t.0 - 1800) as i64, t.1)
}

/// Each slot is the one 30 minutes before the slot after it.
pub open spec fn steps_back_half_hour(slots: Seq<String>) -> bool {
    forall|i: int| #![trigger slots[i]] 0 <= i < slots.len() - 1 ==> is_half_hour_before(slots[i]@, slots[i + 1]@)
}

impl MissedSlotWalk {
    pub open spec fn inv(&self) -> bool {
        &&& self.slots.len() >= 1
        &&& self.slots.len() == self.steps + 1
        &&& self.steps <= MAX_MISSED_SLOT_LOOKBACK
        &&& self.slots@[0]@ == self.cursor@
        &&& steps_back_half_hour(self.slots@)
    }

    /// Starts at the current slot. A slot that does not parse is the only
    /// slot (in its raw form); an unparseable first-run marker stops the
    /// walk at the current slot.
    pub fn start(current_slot_iso: &str, first_run_at: &str) -> (r: Self)
        ensures
            r.inv(),
            r.steps == 0,
            match canonical_iso_spec(current_slot_iso@) {
                None => r.slots@[0]@ == current_slot_iso@ && r.done,
                Some(c) => r.slots@[0]@ == c && r.done == (rfc3339_parse(first_run_at@) is None)
                    && (rfc3339_parse(first_run_at@) matches Some(t) ==> r.first_run_ms == Some(
                    parsed_ms(t) as i64)),
            },
    {
        match canonical_iso(current_slot_iso) {
            None => {
                let mut slots: Vec<String> = Vec::new();
                slots.push(current_slot_iso.to_owned());
                MissedSlotWalk { slots, cursor: current_slot_iso.to_owned(), steps: 0, first_run_ms: None, done: true }
            },
            Some(c) => {
                let first = rfc3339_millis(first_run_at);
                let mut slots: Vec<String> = Vec::new();
                slots.push(c.clone());
                let done = first.is_none();
                MissedSlotWalk { slots, cursor: c, steps: 0, first_run_ms: first, done }
            },
        }
    }

    /// The next question of the walk: the slot before the cursor, unless
    /// the walk is over, the cap is reached, the previous slot does not
    /// parse, or it predates the first run.
    pub fn next_step(&mut self) -> (r: WalkStep)
        requires
            old(self).inv(),
        ensures
            final(self).inv(),
            final(self).slots@ == old(self).slots@,
            final(self).steps == old(self).steps,
            final(self).cursor == old(self).cursor,
            final(self).first_run_ms == old(self).first_run_ms,
            match walk_next(*old(self)) {
                Some(p) => r matches WalkStep::CheckCovered(q) && q@ == p && !final(self).done,
                None => r is Finished && final(self).done,
            },
    {
        if self.done || self.steps >= MAX_MISSED_SLOT_LOOKBACK {
            self.done = true;
            return WalkStep::Finished;
        }
        let prev = match previous_slot_iso(self.cursor.as_str()) {
            Some(p) => p,
            None => {
                self.done = true;
                return WalkStep::Finished;
            },
        };
        let prev_ms = match rfc3339_millis(prev.as_str()) {
            Some(ms) => ms,
            None => {
                self.done = true;
                return WalkStep::Finished;
            },
        };
        let below = match self.first_run_ms {
            Some(f) => prev_ms < f,
            None => true,
        };
        if below {
            self.done = true;
            return WalkStep::Finished;
        }
        WalkStep::CheckCovered(prev)
    }

    /// The answer to `CheckCovered(prev)`: `Some(true)` covered, `Some(false)`
    /// not covered, `None` the check failed. Only an uncovered slot joins
    /// the walk (at the front) and becomes the new cursor.
    pub fn record(&mut self, prev: String, covered: Option<bool>)
        requires
            old(self).inv(),
            walk_next(*old(self)) == Some(prev@),
        ensures
            final(self).inv(),
            covered == Some(false) ==> final(self).slots@ == seq![prev].add(old(self).slots@)
                && final(self).steps == old(self).steps + 1 && !final(self).done,
            covered != Some(false) ==> final(self).slots@ == old(self).slots@ && final(self).done,
    {
        match covered {
            Some(false) => {
                let ghost before = self.slots@;
                self.slots.insert(0, prev.clone());
                self.cursor = prev;
                self.steps = self.steps + 1;
                proof {
                    assert(self.slots@ =~= seq![prev].add(before));
                    assert forall|i: int| #![trigger self.slots@[i]] 0 <= i < self.slots@.len() - 1 implies is_half_hour_before(
                        self.slots@[i]@,
                        self.slots@[i + 1]@,
                    ) by {
                        if i > 0 {
                            assert(self.slots@[i] == before[i - 1]);
                            assert(self.slots@[i + 1] == before[i]);
                            assert(is_half_hour_before(before[i - 1]@, before[i]@));
                        }
                    }
                }
            },
            _ => {
                self.done = true;
            },
        }
    }

    /// The slots the reflection covers, oldest first.
    pub fn into_slots(self) -> (r: Vec<String>)
        ensures
            r@ == self.slots@,
    {
        self.slots
    }
}

/// The slot the walk asks about next: the one 30 minutes before the
/// cursor, unless the walk is over, the cap is reached, either slot fails
/// to parse, there is no first-run marker, or the slot predates it.
pub open spec fn walk_next(w: MissedSlotWalk) -> Option<Seq<char>> {
    if w.done || w.steps >= MAX_MISSED_SLOT_LOOKBACK {
        None
    } else {
        match rfc3339_parse(w.cursor@) {
            None => None,
            Some(t) => {
                let p = utc_millis_text((t.0 - 1800) as i64, t.1);
                match (rfc3339_parse(p), w.first_run_ms) {
                    (Some(t2), Some(f)) => if (parsed_ms(t2) as i64) < f {
                        None
                    } else {
                        Some(p)
                    },
                    _ => None,
                }
            },
        }
    }
}

/// `canonical_iso` as a specification.
pub open spec fn canonical_iso_spec(iso: Seq<char>) -> Option<Seq<char>> {
    match rfc3339_parse(iso) {
        Some(t) => Some(canonical_of(t)),
        None => None,
    }
}

/// The walk's slots step back from the current slot half an hour at a
/// time, oldest first: each is the slot 30 minutes before the next.
pub proof fn lemma_walk_steps_back(w: MissedSlotWalk)
    requires
        w.inv(),
    ensures
        forall|i: int|
            0 <= i < w.slots@.len() - 1 ==> is_half_hour_before(#[trigger] w.slots@[i]@, w.slots@[i + 1]@),
{
}

/// Once the walk is over -- a covered slot, a failed coverage check, the
/// cap, an unparseable slot or the first run reached -- it asks about no
/// further slot, so a check that could not tell never extends the list.
pub proof fn lemma_finished_walk_asks_nothing(w: MissedSlotWalk)
    requires
        w.done,
    ensures
        walk_next(w) is None,
{
}

/// The walk never collects more than the current slot plus the lookback
/// cap, whatever the database answers.
pub proof fn lemma_walk_bounded(w: MissedSlotWalk)
    requires
        w.inv(),
    ensures
        w.slots.len() <= MAX_MISSED_SLOT_LOOKBACK + 1,
{
}

} // verus!
