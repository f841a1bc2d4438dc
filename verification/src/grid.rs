//! The fixed wall-clock pomodoro grid: which slot an instant falls in, in
//! either schedule, and the RFC 3339 slot arithmetic built on top of it.
//!
//! Instants are carried as `ZonedTime`: seconds since the Unix epoch (UTC),
//! the sub-second nanoseconds, and the offset of the local wall clock from
//! UTC. The wall-clock reading is `utc_secs + offset_secs`; minute and second
//! of the hour follow from it by Euclidean division.
use chrono::TimeZone;
use vstd::prelude::*;

use crate::text::{
    eq_ignore_ascii_case, eq_ignore_ascii_case_spec, trim, trim_end_spec, trim_spec, trim_start_spec,
    unicode_white_space,
};

verus! {

// ---------------------------------------------------------------------------
// Instants
// ---------------------------------------------------------------------------

/// First and last UTC second chrono can represent (-262143-01-01T00:00:00Z
/// and +262142-12-31T23:59:59Z).
pub const STAMP_MIN: i64 = -8_334_601_315_200;
pub const STAMP_MAX: i64 = 8_210_266_876_799;

/// One instant with the local wall-clock offset in effect at it.
#[derive(Clone, Copy, Debug, PartialEq, Eq, Structural)]
pub struct ZonedTime {
    pub utc_secs: i64,
    pub nanos: u32,
    pub offset_secs: i32,
}

impl ZonedTime {
    /// What a chrono `DateTime` can hold: an offset under a day, and a
    /// nanosecond field above one second only inside a leap second.
    pub open spec fn wf(self) -> bool {
        &&& STAMP_MIN <= self.utc_secs <= STAMP_MAX
        &&& -86400 < self.offset_secs < 86400
        &&& self.nanos < 2_000_000_000
        &&& (self.nanos >= 1_000_000_000 ==> self.utc_secs % 60 == 59)
    }

    /// The wall-clock reading, in seconds since the local epoch.
    pub open spec fn naive(self) -> int {
        self.utc_secs + self.offset_secs
    }

    pub open spec fn minute_spec(self) -> int {
        (self.naive() % 3600) / 60
    }

    pub open spec fn second_spec(self) -> int {
        self.naive() % 60
    }

    /// Start of the wall-clock hour, in local seconds.
    pub open spec fn hour_base(self) -> int {
        self.naive() - self.naive() % 3600
    }

    /// The instant order (chrono compares `DateTime`s by instant alone).
    pub open spec fn before(self, other: ZonedTime) -> bool {
        self.utc_secs < other.utc_secs || (self.utc_secs == other.utc_secs && self.nanos
            < other.nanos)
    }

    /// Minute of the wall-clock hour (`Timelike::minute`).
    pub fn minute(&self) -> (r: u32)
        requires
            self.wf(),
        ensures
            r == self.minute_spec(),
            r < 60,
    {
        let naive: i64 = self.utc_secs + self.offset_secs as i64;
        let m = naive % 3600;
        let m = if m < 0 { m + 3600 } else { m };
        (m / 60) as u32
    }

    /// Second of the wall-clock minute (`Timelike::second`).
    pub fn second(&self) -> (r: u32)
        requires
            self.wf(),
        ensures
            r == self.second_spec(),
            r < 60,
    {
        let naive: i64 = self.utc_secs + self.offset_secs as i64;
        let s = naive % 60;
        let s = if s < 0 { s + 60 } else { s };
        s as u32
    }

    /// Whether `self` is strictly earlier than `other`.
    pub fn is_before(&self, other: &ZonedTime) -> (r: bool)
        ensures
            r == self.before(*other),
    {
        self.utc_secs < other.utc_secs || (self.utc_secs == other.utc_secs && self.nanos
            < other.nanos)
    }
}

pub proof fn lemma_before_transitive(a: ZonedTime, b: ZonedTime, c: ZonedTime)
    requires
        a.before(b),
        b.before(c),
    ensures
        a.before(c),
{
}

// ---------------------------------------------------------------------------
// chrono
// ---------------------------------------------------------------------------

/// What `DateTime::parse_from_rfc3339` gives for a string: its UTC
/// timestamp, sub-second nanoseconds and offset, or `None` on a parse error.
pub uninterp spec fn rfc3339_parse(s: Seq<char>) -> Option<(i64, u32, i32)>;

/// What `DateTime::to_rfc3339` prints for an instant at the given offset.
pub uninterp spec fn rfc3339_text(utc_secs: i64, nanos: u32, offset_secs: i32) -> Seq<char>;

/// What `DateTime<Utc>::to_rfc3339_opts(SecondsFormat::Millis, true)` prints
/// for an instant: UTC, millisecond precision, `Z` suffix.
pub uninterp spec fn utc_millis_text(utc_secs: i64, nanos: u32) -> Seq<char>;

/// The range every successful RFC 3339 parse lands in: a four-digit year
/// (0000-9999) shifted by an offset under a day, a leap second only as
/// `:60` (nanoseconds at or above one second on a `:59` second).
pub open spec fn parsed_in_range(t: (i64, u32, i32)) -> bool {
    &&& -62167219200 - 86400 < t.0 < 253402300799 + 86400
    &&& -86400 < t.2 < 86400
    &&& t.1 < 2_000_000_000
    &&& (t.1 >= 1_000_000_000 ==> t.0 % 60 == 59)
}

/// `DateTime::parse_from_rfc3339`. chrono's parser reads exactly four year
/// digits and refuses offsets of a day or more (`FixedOffset::east_opt`);
/// a `:60` second becomes second 59 plus one extra second of nanoseconds.
#[verifier::external_body]
fn parse_rfc3339(s: &str) -> (r: Option<(i64, u32, i32)>)
    ensures
        r == rfc3339_parse(s@),
        r matches Some(t) ==> parsed_in_range(t),
{
    match chrono::DateTime::parse_from_rfc3339(s) {
        Ok(dt) => Some((dt.timestamp(), dt.timestamp_subsec_nanos(), dt.offset().local_minus_utc())),
        Err(_) => None,
    }
}

/// `DateTime::to_rfc3339` on the instant at its offset (the text depends
/// only on the wall-clock reading and the offset, so a `DateTime<Local>` and
/// a `DateTime<FixedOffset>` at the same offset print alike).
#[verifier::external_body]
pub(crate) fn format_rfc3339(z: &ZonedTime) -> (r: String)
    requires
        z.wf(),
    ensures
        r@ == rfc3339_text(z.utc_secs, z.nanos, z.offset_secs),
{
    match (chrono::FixedOffset::east_opt(z.offset_secs), chrono::DateTime::from_timestamp(z.utc_secs, z.nanos)) {
        (Some(off), Some(dt)) => dt.with_timezone(&off).to_rfc3339(),
        _ => String::new(),
    }
}

/// `DateTime<Utc>::to_rfc3339_opts(SecondsFormat::Millis, true)`.
#[verifier::external_body]
pub(crate) fn format_utc_millis(utc_secs: i64, nanos: u32) -> (r: String)
    requires
        STAMP_MIN <= utc_secs <= STAMP_MAX,
        nanos < 2_000_000_000,
        nanos >= 1_000_000_000 ==> utc_secs % 60 == 59,
    ensures
        r@ == utc_millis_text(utc_secs, nanos),
{
    match chrono::DateTime::from_timestamp(utc_secs, nanos) {
        Some(dt) => dt.to_rfc3339_opts(chrono::SecondsFormat::Millis, true),
        None => String::new(),
    }
}

/// What the local time zone says of one wall-clock reading.
#[derive(Clone, Copy, Debug, PartialEq, Eq, Structural)]
pub enum LocalLookup {
    /// Exactly one instant shows this reading; its offset.
    Single(i32),
    /// The reading happens twice (a fall-back hour); both offsets, in the
    /// order chrono reports them.
    Ambiguous(i32, i32),
    /// The reading never happens (a spring-forward gap).
    Missing,
}

/// `Local.from_local_datetime` on a wall-clock reading given in local
/// seconds. What comes back depends on the machine's time zone, so nothing
/// is promised of it but that every offset is under a day (`FixedOffset`).
#[verifier::external_body]
fn local_offsets_for(naive_secs: i64) -> (r: LocalLookup)
    requires
        STAMP_MIN - 86400 <= naive_secs <= STAMP_MAX + 86400,
    ensures
        r matches LocalLookup::Single(o) ==> -86400 < o < 86400,
        r matches LocalLookup::Ambiguous(a, b) ==> -86400 < a < 86400 && -86400 < b < 86400,
{
    match chrono::DateTime::from_timestamp(naive_secs, 0) {
        Some(d) => match chrono::Local.from_local_datetime(&d.naive_utc()) {
            chrono::LocalResult::Single(dt) => LocalLookup::Single(dt.offset().local_minus_utc()),
            chrono::LocalResult::Ambiguous(a, b) => LocalLookup::Ambiguous(
                a.offset().local_minus_utc(),
                b.offset().local_minus_utc(),
            ),
            chrono::LocalResult::None => LocalLookup::Missing,
        },
        None => LocalLookup::Missing,
    }
}

/// The local time zone's offset at one UTC instant (what adding a duration
/// to a `DateTime<Local>` recomputes). Depends on the machine's time zone;
/// only the `FixedOffset` bound is promised.
#[verifier::external_body]
fn local_offset_at(utc_secs: i64) -> (r: i32)
    requires
        STAMP_MIN <= utc_secs <= STAMP_MAX,
    ensures
        -86400 < r < 86400,
{
    match chrono::DateTime::from_timestamp(utc_secs, 0) {
        Some(d) => d.with_timezone(&chrono::Local).offset().local_minus_utc(),
        None => 0,
    }
}

/// `DateTime<Local> + Duration::minutes(minutes)`: the instant moves, and
/// the offset is looked up again for the new instant.
pub fn local_add_minutes(z: &ZonedTime, minutes: i64) -> (r: ZonedTime)
    requires
        z.wf(),
        STAMP_MIN <= z.utc_secs + 60 * minutes <= STAMP_MAX,
    ensures
        r.wf(),
        r.utc_secs == z.utc_secs + 60 * minutes,
        r.nanos == z.nanos,
{
    let utc = z.utc_secs + 60 * minutes;
    let off = local_offset_at(utc);
    let r = ZonedTime { utc_secs: utc, nanos: z.nanos, offset_secs: off };
    proof {
        vstd::arithmetic::div_mod::lemma_mod_multiples_vanish(
            minutes as int,
            z.utc_secs as int,
            60,
        );
    }
    r
}

// ---------------------------------------------------------------------------
// Modes and phases
// ---------------------------------------------------------------------------

#[derive(Clone, Copy, Debug, PartialEq, Eq, Structural)]
pub enum Phase {
    Work,
    Break,
}

/// Which wall-clock schedule is in effect. `Normal` is the 25/5/25/5 grid;
/// `Concentration` is work :00-:25, break :25-:26, work :26-:50, break
/// :50-:00.
#[derive(Clone, Copy, Debug, PartialEq, Eq, Structural)]
pub enum Mode {
    Normal,
    Concentration,
}

pub open spec fn mode_name(m: Mode) -> Seq<char> {
    match m {
        Mode::Normal => seq!['n', 'o', 'r', 'm', 'a', 'l'],
        Mode::Concentration => seq![
            'c',
            'o',
            'n',
            'c',
            'e',
            'n',
            't',
            'r',
            'a',
            't',
            'i',
            'o',
            'n',
        ],
    }
}

/// What `Mode::parse` makes of a stored setting: "concentration" in any
/// ASCII case, surrounded by any white space, and nothing else, selects
/// concentration; every other value (blank, unknown) falls back to normal.
pub open spec fn mode_parse_spec(s: Seq<char>) -> Mode {
    if eq_ignore_ascii_case_spec(trim_spec(s), mode_name(Mode::Concentration)) {
        Mode::Concentration
    } else {
        Mode::Normal
    }
}

/// A mode's stored name parses back to that mode.
pub proof fn lemma_mode_name_round_trip(m: Mode)
    ensures
        mode_parse_spec(mode_name(m)) == m,
{
    let s = mode_name(m);
    assert(!unicode_white_space(s[0]));
    assert(trim_start_spec(s) == s);
    assert(!unicode_white_space(s.last()));
    assert(trim_end_spec(s) == s);
    assert(trim_spec(s) == s);
}

impl Mode {
    pub fn as_str(self) -> (r: &'static str)
        ensures
            r@ == mode_name(self),
    {
        match self {
            Mode::Normal => {
                proof {
                    reveal_strlit("normal");
                }
                "normal"
            },
            Mode::Concentration => {
                proof {
                    reveal_strlit("concentration");
                }
                "concentration"
            },
        }
    }

    /// Unknown/blank values fall back to Normal so a bad row can't break
    /// scheduling.
    pub fn parse(s: &str) -> (r: Mode)
        ensures
            r == mode_parse_spec(s@),
    {
        let t = trim(s);
        let name = Mode::Concentration.as_str();
        if eq_ignore_ascii_case(t.as_str(), name) {
            Mode::Concentration
        } else {
            Mode::Normal
        }
    }
}

impl Default for Mode {
    fn default() -> (r: Mode)
        ensures
            r == Mode::Normal,
    {
        Mode::Normal
    }
}

// ---------------------------------------------------------------------------
// Slot bands
// ---------------------------------------------------------------------------

/// A slot's phase and its start and end as (minute, second) of the hour;
/// an end minute of 60 is the top of the next hour.
#[derive(Clone, Copy, Debug, PartialEq, Eq, Structural)]
pub struct Band {
    pub phase: Phase,
    pub start_min: u32,
    pub start_sec: u32,
    pub end_min: u32,
    pub end_sec: u32,
}

/// The grid: where in the hour (minute `m`, second `s`) each schedule puts
/// its work and break slots. Normal looks at the minute only; concentration
/// at the second of the hour.
pub open spec fn band_spec(mode: Mode, m: int, s: int) -> Band {
    match mode {
        Mode::Normal => if m < 25 {
            Band { phase: Phase::Work, start_min: 0, start_sec: 0, end_min: 25, end_sec: 0 }
        } else if m < 30 {
            Band { phase: Phase::Break, start_min: 25, start_sec: 0, end_min: 30, end_sec: 0 }
        } else if m < 55 {
            Band { phase: Phase::Work, start_min: 30, start_sec: 0, end_min: 55, end_sec: 0 }
        } else {
            Band { phase: Phase::Break, start_min: 55, start_sec: 0, end_min: 60, end_sec: 0 }
        },
        Mode::Concentration => {
            let t = m * 60 + s;
            if t < 25 * 60 {
                Band { phase: Phase::Work, start_min: 0, start_sec: 0, end_min: 25, end_sec: 0 }
            } else if t < 26 * 60 {
                Band { phase: Phase::Break, start_min: 25, start_sec: 0, end_min: 26, end_sec: 0 }
            } else if t < 50 * 60 {
                Band { phase: Phase::Work, start_min: 26, start_sec: 0, end_min: 50, end_sec: 0 }
            } else {
                Band { phase: Phase::Break, start_min: 50, start_sec: 0, end_min: 60, end_sec: 0 }
            }
        },
    }
}

/// The slot band that minute `m`, second `s` of the hour falls in.
pub fn band_for(mode: Mode, m: u32, s: u32) -> (r: Band)
    requires
        m < 60,
        s < 60,
    ensures
        r == band_spec(mode, m as int, s as int),
{
    match mode {
        Mode::Normal => {
            if m < 25 {
                Band { phase: Phase::Work, start_min: 0, start_sec: 0, end_min: 25, end_sec: 0 }
            } else if m < 30 {
                Band { phase: Phase::Break, start_min: 25, start_sec: 0, end_min: 30, end_sec: 0 }
            } else if m < 55 {
                Band { phase: Phase::Work, start_min: 30, start_sec: 0, end_min: 55, end_sec: 0 }
            } else {
                Band { phase: Phase::Break, start_min: 55, start_sec: 0, end_min: 60, end_sec: 0 }
            }
        },
        Mode::Concentration => {
            let t = m * 60 + s;
            if t < 25 * 60 {
                Band { phase: Phase::Work, start_min: 0, start_sec: 0, end_min: 25, end_sec: 0 }
            } else if t < 26 * 60 {
                Band { phase: Phase::Break, start_min: 25, start_sec: 0, end_min: 26, end_sec: 0 }
            } else if t < 50 * 60 {
                Band { phase: Phase::Work, start_min: 26, start_sec: 0, end_min: 50, end_sec: 0 }
            } else {
                Band { phase: Phase::Break, start_min: 50, start_sec: 0, end_min: 60, end_sec: 0 }
            }
        },
    }
}

/// Every band contains the instant it was chosen for, and starts before it
/// ends: the grid tiles the hour.
pub proof fn lemma_band_contains(mode: Mode, m: int, s: int)
    requires
        0 <= m < 60,
        0 <= s < 60,
    ensures
        ({
            let b = band_spec(mode, m, s);
            &&& b.start_min * 60 + b.start_sec <= m * 60 + s < b.end_min * 60 + b.end_sec
            &&& b.end_min <= 60
        }),
{
}

/// Work and break alternate with no gap: the band in effect where a band
/// ends (inside the hour) starts exactly there and has the other phase.
pub proof fn lemma_bands_alternate(mode: Mode, m: int, s: int)
    requires
        0 <= m < 60,
        0 <= s < 60,
        band_spec(mode, m, s).end_min < 60,
    ensures
        ({
            let b = band_spec(mode, m, s);
            let next = band_spec(mode, b.end_min as int, b.end_sec as int);
            &&& next.start_min == b.end_min && next.start_sec == b.end_sec
            &&& next.phase != b.phase
        }),
{
}

// ---------------------------------------------------------------------------
// Resolving wall-clock readings
// ---------------------------------------------------------------------------

/// `z` shows the wall-clock reading `naive` shifted forward by a whole
/// number of minutes below `limit`.
pub open spec fn resolves_within(z: ZonedTime, naive: int, limit: int) -> bool {
    &&& z.wf()
    &&& z.nanos == 0
    &&& 0 <= z.naive() - naive < 60 * limit
    &&& (z.naive() - naive) % 60 == 0
}

/// The offset a local-zone lookup resolves a reading to: its only offset,
/// or for a reading that happens twice the first one chrono reports (the
/// earlier instant); none for a reading that never happens.
pub open spec fn lookup_offset(l: LocalLookup) -> Option<i32> {
    match l {
        LocalLookup::Single(o) => Some(o),
        LocalLookup::Ambiguous(a, _) => Some(a),
        LocalLookup::Missing => None,
    }
}

/// Every offset the lookups gave is under a day.
pub open spec fn lookups_ok(ls: Seq<LocalLookup>) -> bool {
    forall|i: int|
        0 <= i < ls.len() ==> match #[trigger] ls[i] {
            LocalLookup::Single(o) => -86400 < o < 86400,
            LocalLookup::Ambiguous(a, b) => -86400 < a < 86400 && -86400 < b < 86400,
            LocalLookup::Missing => true,
        }
}

/// The first lookup at or after `i` that resolves.
pub open spec fn first_resolved_from(ls: Seq<LocalLookup>, i: int) -> Option<int>
    decreases ls.len() - i,
{
    if i < 0 || i >= ls.len() {
        None
    } else if lookup_offset(ls[i]) is Some {
        Some(i)
    } else {
        first_resolved_from(ls, i + 1)
    }
}

/// What resolving the wall-clock reading `naive` gives when the `i`-th
/// lookup answered for the reading `naive + 60 * i` (one minute later each
/// time): the first reading that happens, at the offset its lookup
/// resolves it to; nothing when none of them does.
pub open spec fn resolve_spec(naive: int, ls: Seq<LocalLookup>) -> Option<ZonedTime> {
    match first_resolved_from(ls, 0) {
        Some(i) => {
            let o = lookup_offset(ls[i])->0;
            Some(ZonedTime { utc_secs: (naive + 60 * i - o) as i64, nanos: 0, offset_secs: o })
        },
        None => None,
    }
}

proof fn lemma_first_resolved_from(ls: Seq<LocalLookup>, j: int)
    requires
        0 <= j,
    ensures
        first_resolved_from(ls, j) matches Some(i) ==> j <= i < ls.len() && lookup_offset(ls[i]) is Some
            && forall|k: int| j <= k < i ==> lookup_offset(#[trigger] ls[k]) is None,
        first_resolved_from(ls, j) is None ==> forall|k: int|
            j <= k < ls.len() ==> lookup_offset(#[trigger] ls[k]) is None,
    decreases ls.len() - j,
{
    if j < ls.len() && lookup_offset(ls[j]) is None {
        lemma_first_resolved_from(ls, j + 1);
    }
}

proof fn lemma_first_resolved_skips(ls: Seq<LocalLookup>, i: int)
    requires
        0 <= i <= ls.len(),
        forall|k: int| 0 <= k < i ==> lookup_offset(#[trigger] ls[k]) is None,
    ensures
        first_resolved_from(ls, 0) == first_resolved_from(ls, i),
    decreases i,
{
    if i > 0 {
        lemma_first_resolved_skips(ls, i - 1);
        assert(lookup_offset(ls[i - 1]) is None);
    }
}

/// A resolved reading lies within the lookups' window and is representable.
proof fn lemma_resolved_within(naive: int, ls: Seq<LocalLookup>)
    requires
        STAMP_MIN + 86400 <= naive <= STAMP_MAX - 86400 - 180 * 60,
        ls.len() <= 180,
        lookups_ok(ls),
    ensures
        resolve_spec(naive, ls) matches Some(z) ==> resolves_within(z, naive, 180),
{
    lemma_first_resolved_from(ls, 0);
    if let Some(i) = first_resolved_from(ls, 0) {
        let l = ls[i];
        assert(match l {
            LocalLookup::Single(o) => -86400 < o < 86400,
            LocalLookup::Ambiguous(a, b) => -86400 < a < 86400 && -86400 < b < 86400,
            LocalLookup::Missing => true,
        });
        assert((60 * i) % 60 == 0) by (nonlinear_arith);
    }
}

/// Resolves a wall-clock reading from the local zone's answers, one per
/// minute from `naive` on: the first reading that happens, at its only
/// offset or, when it happens twice, the earlier instant's.
pub fn resolve_from_lookups(naive: i64, looks: &Vec<LocalLookup>) -> (r: Option<ZonedTime>)
    requires
        i64::MIN + 0x8000_0000 <= naive,
        naive + 60 * looks.len() <= i64::MAX - 0x8000_0000,
        60 * looks.len() <= i64::MAX,
    ensures
        r == resolve_spec(naive as int, looks@),
{
    let mut i: usize = 0;
    while i < looks.len()
        invariant
            0 <= i <= looks.len(),
            i64::MIN + 0x8000_0000 <= naive,
            naive + 60 * looks.len() <= i64::MAX - 0x8000_0000,
            60 * looks.len() <= i64::MAX,
            forall|k: int| 0 <= k < i ==> lookup_offset(#[trigger] looks@[k]) is None,
        decreases looks.len() - i,
    {
        let off: Option<i32> = match looks[i] {
            LocalLookup::Single(o) => Some(o),
            LocalLookup::Ambiguous(a, _) => Some(a),
            LocalLookup::Missing => None,
        };
        if let Some(o) = off {
            proof {
                lemma_first_resolved_skips(looks@, i as int);
            }
            return Some(ZonedTime { utc_secs: naive + 60 * (i as i64) - o as i64, nanos: 0, offset_secs: o });
        }
        i = i + 1;
    }
    proof {
        lemma_first_resolved_skips(looks@, i as int);
    }
    None
}

/// Asks the local zone about `naive`, then one minute later each time,
/// until a reading happens or 180 readings were asked about.
fn collect_lookups(naive: i64) -> (r: Vec<LocalLookup>)
    requires
        STAMP_MIN + 86400 <= naive <= STAMP_MAX - 86400 - 180 * 60,
    ensures
        r.len() <= 180,
        lookups_ok(r@),
        lookup_run(r@),
{
    let mut out: Vec<LocalLookup> = Vec::new();
    let mut cur: i64 = naive;
    let mut i: u32 = 0;
    while i < 180
        invariant
            0 <= i <= 180,
            out.len() == i,
            cur == naive + 60 * i,
            STAMP_MIN + 86400 <= naive <= STAMP_MAX - 86400 - 180 * 60,
            lookups_ok(out@),
            forall|k: int| 0 <= k < i ==> #[trigger] out@[k] == LocalLookup::Missing,
        decreases 180 - i,
    {
        let found = local_offsets_for(cur);
        let ghost before = out@;
        out.push(found);
        proof {
            assert forall|k: int| 0 <= k < out.len() implies match #[trigger] out@[k] {
                LocalLookup::Single(o) => -86400 < o < 86400,
                LocalLookup::Ambiguous(a, b) => -86400 < a < 86400 && -86400 < b < 86400,
                LocalLookup::Missing => true,
            } by {
                if k < i {
                    assert(out@[k] == before[k]);
                }
            }
        }
        match found {
            LocalLookup::Missing => {},
            _ => {
                proof {
                    assert forall|k: int| 0 <= k < out.len() - 1 implies #[trigger] out@[k] == LocalLookup::Missing by {
                        assert(out@[k] == before[k]);
                    }
                }
                return out;
            },
        }
        proof {
            assert forall|k: int| 0 <= k < i + 1 implies #[trigger] out@[k] == LocalLookup::Missing by {
                if k < i {
                    assert(out@[k] == before[k]);
                }
            }
        }
        cur = cur + 60;
        i = i + 1;
    }
    out
}

/// The lookups one resolution of a reading is decided by: at most 180 of
/// them, each offset under a day.
pub open spec fn lookup_window(ls: Seq<LocalLookup>) -> bool {
    ls.len() <= 180 && lookups_ok(ls)
}

/// The lookups a resolution actually makes, one minute apart: every reading
/// before the last one asked about never happened, and the last one
/// happened -- unless all 180 readings were asked about.
pub open spec fn lookup_run(ls: Seq<LocalLookup>) -> bool {
    &&& lookup_window(ls)
    &&& 1 <= ls.len()
    &&& forall|i: int| 0 <= i < ls.len() - 1 ==> #[trigger] ls[i] == LocalLookup::Missing
    &&& (ls.last() == LocalLookup::Missing ==> ls.len() == 180)
}

/// A reading that stayed unresolved for all 180 minutes asked about.
pub open spec fn unresolved_run(ls: Seq<LocalLookup>) -> bool {
    &&& ls.len() == 180
    &&& forall|i: int| 0 <= i < ls.len() ==> #[trigger] ls[i] == LocalLookup::Missing
}

/// Turns a wall-clock reading into a real instant in the local zone: an
/// ambiguous reading takes the first instant chrono reports (the earlier
/// one); a reading in a spring-forward gap moves forward a minute at a
/// time, for at most 180 minutes. `None` when no real instant turned up
/// within that bound. The result is what `resolve_from_lookups` gives for
/// the zone's answers.
pub fn resolve_local(naive: i64) -> (r: Option<ZonedTime>)
    requires
        STAMP_MIN + 86400 <= naive <= STAMP_MAX - 86400 - 180 * 60,
    ensures
        exists|ls: Seq<LocalLookup>|
            #![trigger resolve_spec(naive as int, ls)]
            lookup_run(ls) && r == resolve_spec(naive as int, ls),
        r matches Some(z) ==> resolves_within(z, naive as int, 180),
{
    let looks = collect_lookups(naive);
    let r = resolve_from_lookups(naive, &looks);
    proof {
        lemma_resolved_within(naive as int, looks@);
    }
    r
}

// ---------------------------------------------------------------------------
// Slots
// ---------------------------------------------------------------------------

/// A work or break slot of the grid, with its real start and end instants.
#[derive(Clone, Copy, Debug, PartialEq, Eq, Structural)]
pub struct Slot {
    pub phase: Phase,
    pub start: ZonedTime,
    pub end: ZonedTime,
}

/// The instants `slot_for_mode` may be asked about: far enough inside the
/// representable range that a slot three hours later still is.
pub open spec fn slot_time_ok(now: ZonedTime) -> bool {
    &&& now.wf()
    &&& STAMP_MIN + 4 * 86400 <= now.utc_secs <= STAMP_MAX - 4 * 86400
}

/// What `slot_for_mode` returns for `now`: the band's phase; a start that
/// resolves the band's start reading in `now`'s hour; and an end that
/// resolves the band's end reading -- or, for a band that ends at the top
/// of the hour, the resolved start of this hour moved one hour on.
pub open spec fn is_slot_for(s: Slot, now: ZonedTime, mode: Mode) -> bool {
    let b = band_spec(mode, now.minute_spec(), now.second_spec());
    let base = now.hour_base();
    &&& s.phase == b.phase
    &&& resolves_within(s.start, base + b.start_min * 60 + b.start_sec, 180)
    &&& s.end.wf()
    &&& if b.end_min == 60 {
        exists|h: ZonedTime|
            resolves_within(h, base, 180) && #[trigger] h.utc_secs + 3600 == s.end.utc_secs
                && s.end.nanos == 0
    } else {
        resolves_within(s.end, base + b.end_min * 60 + b.end_sec, 180)
    }
}

/// The slot of `now` as decided by the zone's answers: `ls` for the band's
/// start reading, `le` for its end reading -- or, for a band that ends at
/// the top of the hour, for the start of `now`'s hour, whose instant moved
/// one hour on (at the offset `end_offset` the zone gives there) is the
/// end. A slot exactly when both readings resolve.
pub open spec fn slot_spec(
    now: ZonedTime,
    mode: Mode,
    ls: Seq<LocalLookup>,
    le: Seq<LocalLookup>,
    end_offset: i32,
) -> Option<Slot> {
    let b = band_spec(mode, now.minute_spec(), now.second_spec());
    let base = now.hour_base();
    let start = resolve_spec(base + b.start_min * 60 + b.start_sec, ls);
    let end = if b.end_min == 60 {
        match resolve_spec(base, le) {
            Some(h) => Some(
                ZonedTime { utc_secs: (h.utc_secs + 3600) as i64, nanos: 0, offset_secs: end_offset },
            ),
            None => None,
        }
    } else {
        resolve_spec(base + b.end_min * 60 + b.end_sec, le)
    };
    match (start, end) {
        (Some(st), Some(en)) => Some(Slot { phase: b.phase, start: st, end: en }),
        _ => None,
    }
}

/// What `slot_for_mode` may return for `now`: the slot the zone's answers
/// decide, for some such answers.
pub open spec fn slot_outcome(now: ZonedTime, mode: Mode, r: Option<Slot>) -> bool {
    exists|ls: Seq<LocalLookup>, le: Seq<LocalLookup>, off: i32|
        #![trigger slot_spec(now, mode, ls, le, off)]
        lookup_run(ls) && lookup_run(le) && -86400 < off < 86400 && r == slot_spec(
            now,
            mode,
            ls,
            le,
            off,
        )
}

proof fn lemma_slot_spec_is_slot_for(
    now: ZonedTime,
    mode: Mode,
    ls: Seq<LocalLookup>,
    le: Seq<LocalLookup>,
    off: i32,
)
    requires
        slot_time_ok(now),
        lookup_window(ls),
        lookup_window(le),
        -86400 < off < 86400,
    ensures
        slot_spec(now, mode, ls, le, off) matches Some(s) ==> is_slot_for(s, now, mode),
{
    let b = band_spec(mode, now.minute_spec(), now.second_spec());
    let base = now.hour_base();
    lemma_band_contains(mode, now.minute_spec(), now.second_spec());
    lemma_resolved_within(base + b.start_min * 60 + b.start_sec, ls);
    if b.end_min == 60 {
        lemma_resolved_within(base, le);
        if let Some(h) = resolve_spec(base, le) {
            let e = ZonedTime { utc_secs: (h.utc_secs + 3600) as i64, nanos: 0, offset_secs: off };
            assert(resolves_within(h, base, 180) && h.utc_secs + 3600 == e.utc_secs);
        }
    } else {
        lemma_resolved_within(base + b.end_min * 60 + b.end_sec, le);
    }
}

/// The slot of `now` from the zone's answers (see `slot_spec`).
pub fn slot_from_lookups(
    now: &ZonedTime,
    mode: Mode,
    ls: &Vec<LocalLookup>,
    le: &Vec<LocalLookup>,
    end_offset: i32,
) -> (r: Option<Slot>)
    requires
        slot_time_ok(*now),
        lookup_window(ls@),
        lookup_window(le@),
    ensures
        r == slot_spec(*now, mode, ls@, le@, end_offset),
{
    let m = now.minute();
    let sec = now.second();
    let b = band_for(mode, m, sec);
    let naive: i64 = now.utc_secs + now.offset_secs as i64;
    let rem = naive % 3600;
    let rem = if rem < 0 { rem + 3600 } else { rem };
    let base = naive - rem;
    assert(base == now.hour_base());
    proof {
        lemma_resolved_within(base as int, le@);
    }
    let start = resolve_from_lookups(base + (b.start_min as i64) * 60 + b.start_sec as i64, ls);
    let end = if b.end_min == 60 {
        match resolve_from_lookups(base, le) {
            Some(h) => Some(ZonedTime { utc_secs: h.utc_secs + 3600, nanos: 0, offset_secs: end_offset }),
            None => None,
        }
    } else {
        resolve_from_lookups(base + (b.end_min as i64) * 60 + b.end_sec as i64, le)
    };
    match (start, end) {
        (Some(st), Some(en)) => Some(Slot { phase: b.phase, start: st, end: en }),
        _ => None,
    }
}

/// The slot `now` falls in, in the given schedule, with its real start and
/// end instants in the local zone (see `slot_spec`); `None` when a band
/// boundary does not resolve within 180 minutes.
#[verifier::spinoff_prover]
#[verifier::rlimit(30)]
pub fn slot_for_mode(now: &ZonedTime, mode: Mode) -> (r: Option<Slot>)
    requires
        slot_time_ok(*now),
    ensures
        slot_outcome(*now, mode, r),
        r matches Some(s) ==> is_slot_for(s, *now, mode),
{
    let m = now.minute();
    let sec = now.second();
    let b = band_for(mode, m, sec);
    let naive: i64 = now.utc_secs + now.offset_secs as i64;
    let rem = naive % 3600;
    let rem = if rem < 0 { rem + 3600 } else { rem };
    let base = naive - rem;
    assert(base == now.hour_base());
    let ls = collect_lookups(base + (b.start_min as i64) * 60 + b.start_sec as i64);
    let end_reading: i64 = if b.end_min == 60 {
        base
    } else {
        base + (b.end_min as i64) * 60 + b.end_sec as i64
    };
    let le = collect_lookups(end_reading);
    proof {
        lemma_resolved_within(base as int, le@);
    }
    let end_offset: i32 = if b.end_min == 60 {
        match resolve_from_lookups(base, &le) {
            Some(h) => local_offset_at(h.utc_secs + 3600),
            None => 0,
        }
    } else {
        0
    };
    proof {
        lemma_resolved_within(base as int, le@);
        lemma_slot_spec_is_slot_for(*now, mode, ls@, le@, end_offset);
    }
    slot_from_lookups(now, mode, &ls, &le, end_offset)
}

/// The normal schedule: :00-:25 work, :25-:30 break, :30-:55 work, :55-:00
/// break.
pub fn slot_for(now: &ZonedTime) -> (r: Option<Slot>)
    requires
        slot_time_ok(*now),
    ensures
        slot_outcome(*now, Mode::Normal, r),
        r matches Some(s) ==> is_slot_for(s, *now, Mode::Normal),
{
    slot_for_mode(now, Mode::Normal)
}

impl Slot {
    pub fn start_iso(&self) -> (r: String)
        requires
            self.start.wf(),
        ensures
            r@ == rfc3339_text(self.start.utc_secs, self.start.nanos, self.start.offset_secs),
    {
        format_rfc3339(&self.start)
    }
}


// ---------------------------------------------------------------------------
// Slot arithmetic on RFC 3339 instants
// ---------------------------------------------------------------------------

/// Instants far enough inside the representable range to move an hour
/// either way.
pub open spec fn shift_ok(z: ZonedTime) -> bool {
    &&& z.wf()
    &&& STAMP_MIN + 86400 <= z.utc_secs <= STAMP_MAX - 86400
}

/// `z` moved by `minutes` at its own fixed offset.
pub open spec fn shifted(z: ZonedTime, minutes: int) -> ZonedTime {
    ZonedTime {
        utc_secs: (z.utc_secs + 60 * minutes) as i64,
        nanos: z.nanos,
        offset_secs: z.offset_secs,
    }
}

/// The top of `z`'s wall-clock hour, at `z`'s offset, with no sub-second part.
pub open spec fn hour_start_spec(z: ZonedTime) -> ZonedTime {
    ZonedTime {
        utc_secs: (z.hour_base() - z.offset_secs) as i64,
        nanos: 0,
        offset_secs: z.offset_secs,
    }
}

/// The work slot a break belongs to. Normal breaks start 25 minutes after
/// their work slot. Concentration breaks map onto the fixed :00/:30
/// reflection grid: a break in :00-:29 belongs to the hour's :00 slot, one
/// in :30-:59 to its :30 slot.
pub open spec fn preceding_work_spec(z: ZonedTime, mode: Mode) -> ZonedTime {
    match mode {
        Mode::Normal => shifted(z, -25),
        Mode::Concentration => shifted(
            hour_start_spec(z),
            if z.minute_spec() < 30 { 0 } else { 30 },
        ),
    }
}

/// The work slot that begins when a break ends. Normal breaks last five
/// minutes. In concentration mode it is the next :00/:30 grid point: the
/// hour's :30 after a break in :00-:29, the next hour's :00 after one in
/// :30-:59.
pub open spec fn next_work_spec(z: ZonedTime, mode: Mode) -> ZonedTime {
    match mode {
        Mode::Normal => shifted(z, 5),
        Mode::Concentration => shifted(
            hour_start_spec(z),
            if z.minute_spec() < 30 { 30 } else { 60 },
        ),
    }
}

proof fn lemma_shift_wf(z: ZonedTime, minutes: int)
    requires
        z.wf(),
        STAMP_MIN <= z.utc_secs + 60 * minutes <= STAMP_MAX,
    ensures
        shifted(z, minutes).wf(),
{
    vstd::arithmetic::div_mod::lemma_mod_multiples_vanish(minutes, z.utc_secs as int, 60);
}

/// Moves `z` by `minutes` at its own offset (`DateTime<FixedOffset> +
/// Duration`).
pub fn shift_minutes(z: &ZonedTime, minutes: i64) -> (r: ZonedTime)
    requires
        z.wf(),
        STAMP_MIN <= z.utc_secs + 60 * minutes <= STAMP_MAX,
    ensures
        r == shifted(*z, minutes as int),
        r.wf(),
{
    proof {
        lemma_shift_wf(*z, minutes as int);
    }
    ZonedTime { utc_secs: z.utc_secs + 60 * minutes, nanos: z.nanos, offset_secs: z.offset_secs }
}

/// The top of the wall-clock hour (`with_minute(0)`, `with_second(0)`,
/// `with_nanosecond(0)` at a fixed offset).
pub fn hour_start(z: &ZonedTime) -> (r: ZonedTime)
    requires
        shift_ok(*z),
    ensures
        r == hour_start_spec(*z),
        r.wf(),
        r.naive() == z.hour_base(),
{
    let naive: i64 = z.utc_secs + z.offset_secs as i64;
    let rem = naive % 3600;
    let rem = if rem < 0 { rem + 3600 } else { rem };
    let base = naive - rem;
    let r = ZonedTime { utc_secs: base - z.offset_secs as i64, nanos: 0, offset_secs: z.offset_secs };
    r
}

/// The start of the work slot the break starting at `z` belongs to.
pub fn preceding_work_slot_start(z: &ZonedTime, mode: Mode) -> (r: ZonedTime)
    requires
        shift_ok(*z),
    ensures
        r == preceding_work_spec(*z, mode),
        r.wf(),
{
    match mode {
        Mode::Normal => shift_minutes(z, -25),
        Mode::Concentration => {
            let h = hour_start(z);
            let m: i64 = if z.minute() < 30 { 0 } else { 30 };
            shift_minutes(&h, m)
        },
    }
}

/// The start of the work slot that begins when the break starting at `z`
/// ends.
pub fn next_work_slot_start(z: &ZonedTime, mode: Mode) -> (r: ZonedTime)
    requires
        shift_ok(*z),
    ensures
        r == next_work_spec(*z, mode),
        r.wf(),
{
    match mode {
        Mode::Normal => shift_minutes(z, 5),
        Mode::Concentration => {
            let h = hour_start(z);
            let m: i64 = if z.minute() < 30 { 30 } else { 60 };
            shift_minutes(&h, m)
        },
    }
}

/// A parsed RFC 3339 instant as a `ZonedTime`.
pub open spec fn parsed_time(t: (i64, u32, i32)) -> ZonedTime {
    ZonedTime { utc_secs: t.0, nanos: t.1, offset_secs: t.2 }
}

/// Parses an RFC 3339 string (`DateTime::parse_from_rfc3339`).
pub fn parse_zoned(s: &str) -> (r: Option<ZonedTime>)
    ensures
        r == (match rfc3339_parse(s@) {
            Some(t) => Some(parsed_time(t)),
            None => None::<ZonedTime>,
        }),
        r matches Some(z) ==> shift_ok(z),
{
    match parse_rfc3339(s) {
        Some(t) => Some(ZonedTime { utc_secs: t.0, nanos: t.1, offset_secs: t.2 }),
        None => None,
    }
}

/// Formats an instant as RFC 3339 at its own offset.
pub fn to_rfc3339(z: &ZonedTime) -> (r: String)
    requires
        z.wf(),
    ensures
        r@ == rfc3339_text(z.utc_secs, z.nanos, z.offset_secs),
{
    format_rfc3339(z)
}

/// What the ISO slot functions return for a string: `None` when it does
/// not parse, else the formatted result of `f` on the parsed instant.
pub open spec fn iso_map(s: Seq<char>, f: spec_fn(ZonedTime) -> ZonedTime) -> Option<Seq<char>> {
    match rfc3339_parse(s) {
        Some(t) => {
            let z = f(parsed_time(t));
            Some(rfc3339_text(z.utc_secs, z.nanos, z.offset_secs))
        },
        None => None,
    }
}

pub open spec fn opt_view(r: Option<String>) -> Option<Seq<char>> {
    match r {
        Some(x) => Some(x@),
        None => None,
    }
}

/// Given the ISO start of a normal-mode break slot, the ISO start of the
/// work slot it follows: 25 minutes earlier.
pub fn preceding_work_slot_start_iso(break_slot_start_iso: &str) -> (r: Option<String>)
    ensures
        opt_view(r) == iso_map(break_slot_start_iso@, |z: ZonedTime| preceding_work_spec(z, Mode::Normal)),
{
    preceding_work_slot_start_iso_for(break_slot_start_iso, Mode::Normal)
}

/// Given the ISO start of a normal-mode break slot, the ISO start of the
/// next work slot: five minutes later.
pub fn next_work_slot_start_iso(break_slot_start_iso: &str) -> (r: Option<String>)
    ensures
        opt_view(r) == iso_map(break_slot_start_iso@, |z: ZonedTime| next_work_spec(z, Mode::Normal)),
{
    next_work_slot_start_iso_for(break_slot_start_iso, Mode::Normal)
}

/// Mode-aware `preceding_work_slot_start_iso`.
pub fn preceding_work_slot_start_iso_for(break_slot_start_iso: &str, mode: Mode) -> (r: Option<String>)
    ensures
        opt_view(r) == iso_map(break_slot_start_iso@, |z: ZonedTime| preceding_work_spec(z, mode)),
{
    match parse_zoned(break_slot_start_iso) {
        Some(z) => {
            let w = preceding_work_slot_start(&z, mode);
            Some(to_rfc3339(&w))
        },
        None => None,
    }
}

/// Mode-aware `next_work_slot_start_iso`.
pub fn next_work_slot_start_iso_for(break_slot_start_iso: &str, mode: Mode) -> (r: Option<String>)
    ensures
        opt_view(r) == iso_map(break_slot_start_iso@, |z: ZonedTime| next_work_spec(z, mode)),
{
    match parse_zoned(break_slot_start_iso) {
        Some(z) => {
            let w = next_work_slot_start(&z, mode);
            Some(to_rfc3339(&w))
        },
        None => None,
    }
}

/// A normal break ends, 5 minutes in, exactly where the next work slot
/// starts 30 minutes after the previous one did: the two offsets describe
/// one 30-minute pitch.
pub proof fn lemma_normal_slots_thirty_minutes_apart(z: ZonedTime)
    requires
        shift_ok(z),
    ensures
        next_work_spec(z, Mode::Normal).utc_secs - preceding_work_spec(z, Mode::Normal).utc_secs
            == 30 * 60,
{
}

/// In concentration mode the work slot a break belongs to and the next one
/// are always one :00/:30 step apart, and the break lies between them.
pub proof fn lemma_concentration_slots_bracket_break(z: ZonedTime)
    requires
        shift_ok(z),
    ensures
        next_work_spec(z, Mode::Concentration).utc_secs - preceding_work_spec(
            z,
            Mode::Concentration,
        ).utc_secs == 30 * 60,
        preceding_work_spec(z, Mode::Concentration).utc_secs <= z.utc_secs,
        z.utc_secs < next_work_spec(z, Mode::Concentration).utc_secs,
{
}

// ---------------------------------------------------------------------------
// Upcoming breaks
// ---------------------------------------------------------------------------

/// `starts` is a list of at most `n` instants, all after `now`, each one
/// representable, strictly increasing.
pub open spec fn is_upcoming(starts: Seq<ZonedTime>, now: ZonedTime, n: int) -> bool {
    &&& starts.len() <= n
    &&& forall|i: int| 0 <= i < starts.len() ==> now.before(#[trigger] starts[i]) && starts[i].wf()
    &&& forall|i: int, j: int|
        0 <= i < j < starts.len() ==> (#[trigger] starts[i]).before(#[trigger] starts[j])
}

/// `z` is where a break slot of `mode` starts: the slot some instant
/// falls in is a break, and it starts at `z`.
pub open spec fn starts_break_slot(z: ZonedTime, mode: Mode) -> bool {
    exists|t: ZonedTime, s: Slot|
        #![trigger is_slot_for(s, t, mode)]
        is_slot_for(s, t, mode) && s.phase == Phase::Break && s.start == z
}

/// Whether the walk over upcoming slots keeps `slot`'s start: a break that
/// starts after `now` and after the last start kept.
pub open spec fn keeps_break_start(kept: Seq<ZonedTime>, now: ZonedTime, slot: Slot) -> bool {
    &&& slot.phase == Phase::Break
    &&& now.before(slot.start)
    &&& (kept.len() == 0 || kept.last().before(slot.start))
}

/// One slot of the walk over upcoming slots: its start is appended exactly
/// when `keeps_break_start` holds. Returns whether it was.
pub fn collect_break_start(out: &mut Vec<ZonedTime>, now: &ZonedTime, slot: &Slot) -> (r: bool)
    ensures
        r == keeps_break_start(old(out)@, *now, *slot),
        final(out)@ == (if r {
            old(out)@.push(slot.start)
        } else {
            old(out)@
        }),
{
    let fresh = out.len() == 0 || out[out.len() - 1].is_before(&slot.start);
    if slot.phase == Phase::Break && now.is_before(&slot.start) && fresh {
        out.push(slot.start);
        true
    } else {
        false
    }
}

/// The zone's answers for one step of the upcoming-breaks walk (see
/// `walk_step`), as plain values: the lookups for the slot's start reading
/// and for its end reading, the offset at the end of a slot that ends at
/// the top of the hour, and the offset five minutes after the instant
/// examined.
#[derive(Clone, Debug)]
pub struct StepAnswers {
    pub start: Vec<LocalLookup>,
    pub end: Vec<LocalLookup>,
    pub end_offset: i32,
    pub step_offset: i32,
}

pub open spec fn answers_view(v: Seq<StepAnswers>) -> Seq<(Seq<LocalLookup>, Seq<LocalLookup>, i32, i32)> {
    Seq::new(v.len(), |k: int| (v[k].start@, v[k].end@, v[k].end_offset, v[k].step_offset))
}

/// Answers the zone can give: lookup windows, and offsets under a day.
pub open spec fn answers_ok(ans: Seq<(Seq<LocalLookup>, Seq<LocalLookup>, i32, i32)>) -> bool {
    forall|k: int|
        0 <= k < ans.len() ==> {
            let a = #[trigger] ans[k];
            &&& lookup_window(a.0)
            &&& lookup_window(a.1)
            &&& -86400 < a.2 < 86400
            &&& -86400 < a.3 < 86400
        }
}

/// Answers as the zone's lookups actually come: each resolution a run of
/// lookups (`lookup_run`), offsets under a day.
pub open spec fn answers_run_ok(ans: Seq<(Seq<LocalLookup>, Seq<LocalLookup>, i32, i32)>) -> bool {
    forall|k: int|
        0 <= k < ans.len() ==> {
            let a = #[trigger] ans[k];
            &&& lookup_run(a.0)
            &&& lookup_run(a.1)
            &&& -86400 < a.2 < 86400
            &&& -86400 < a.3 < 86400
        }
}

/// The most slots the walk examines for `n` starts: two breaks an hour,
/// about four slots a break, with room for clock changes.
pub open spec fn walk_bound(n: int) -> int {
    n * 8 + 32
}

/// Where the walk stops before examining another slot: the step bound is
/// reached, `n` starts were collected, or the instant to examine lies too
/// close to the end of the representable range.
pub open spec fn walk_stops(n: int, t: ZonedTime, out: Seq<ZonedTime>, steps: int) -> bool {
    steps >= walk_bound(n) || out.len() >= n || t.utc_secs > STAMP_MAX - 4 * 86400
}

/// One step of the walk over upcoming slots, from state (running, instant
/// examined, starts collected), with the zone's answers `a` for it: unless
/// the walk stops, the slot of the instant (`slot_spec`) is examined; none
/// ends the walk; otherwise its start is collected when
/// `keeps_break_start` holds, and the walk moves to the slot's end -- or,
/// when that does not lie after the instant, five minutes on.
pub open spec fn walk_step(
    now: ZonedTime,
    n: int,
    mode: Mode,
    st: (bool, ZonedTime, Seq<ZonedTime>),
    a: (Seq<LocalLookup>, Seq<LocalLookup>, i32, i32),
    steps: int,
) -> (bool, ZonedTime, Seq<ZonedTime>) {
    let t = st.1;
    let out = st.2;
    if !st.0 || walk_stops(n, t, out, steps) {
        (false, t, out)
    } else {
        match slot_spec(t, mode, a.0, a.1, a.2) {
            None => (false, t, out),
            Some(s) => {
                let out2 = if keeps_break_start(out, now, s) {
                    out.push(s.start)
                } else {
                    out
                };
                let t2 = if t.before(s.end) {
                    s.end
                } else {
                    ZonedTime { utc_secs: (t.utc_secs + 300) as i64, nanos: t.nanos, offset_secs: a.3 }
                };
                (true, t2, out2)
            },
        }
    }
}

/// The walk's state after it used the answers `ans`, one per step, starting
/// at `now` with nothing collected.
pub open spec fn walk_fold(
    now: ZonedTime,
    n: int,
    mode: Mode,
    ans: Seq<(Seq<LocalLookup>, Seq<LocalLookup>, i32, i32)>,
) -> (bool, ZonedTime, Seq<ZonedTime>)
    decreases ans.len(),
{
    if ans.len() == 0 {
        (true, now, Seq::<ZonedTime>::empty())
    } else {
        walk_step(now, n, mode, walk_fold(now, n, mode, ans.drop_last()), ans.last(), ans.len() - 1)
    }
}

/// The walk over `ans` is over: a slot did not resolve, or it is at a stop.
pub open spec fn walk_ended(
    now: ZonedTime,
    n: int,
    mode: Mode,
    ans: Seq<(Seq<LocalLookup>, Seq<LocalLookup>, i32, i32)>,
) -> bool {
    let st = walk_fold(now, n, mode, ans);
    !st.0 || walk_stops(n, st.1, st.2, ans.len() as int)
}

/// `starts` is what the walk over upcoming slots gives from `now` for some
/// answers the zone's lookups can give (see `walk_fold`).
pub open spec fn upcoming_walk(now: ZonedTime, n: int, mode: Mode, starts: Seq<ZonedTime>) -> bool {
    exists|ans: Seq<(Seq<LocalLookup>, Seq<LocalLookup>, i32, i32)>|
        #![trigger walk_fold(now, n, mode, ans)]
        answers_ok(ans) && answers_run_ok(ans) && walk_ended(now, n, mode, ans) && starts == walk_fold(
            now,
            n,
            mode,
            ans,
        ).2
}

/// The instants the walk may be at: representable, no earlier than `now`.
pub open spec fn walk_instant_ok(now: ZonedTime, t: ZonedTime) -> bool {
    &&& t.wf()
    &&& now.utc_secs <= t.utc_secs
}

/// The walk over upcoming slots driven by given zone answers, one per step
/// (see `walk_fold`): what `upcoming_break_starts_for` returns when the
/// zone answers so.
pub fn upcoming_from_answers(now: &ZonedTime, n: usize, mode: Mode, answers: &Vec<StepAnswers>) -> (r: Vec<ZonedTime>)
    requires
        now.wf(),
        STAMP_MIN + 4 * 86400 <= now.utc_secs <= STAMP_MAX - 4 * 86400,
        answers_ok(answers_view(answers@)),
    ensures
        r@ == walk_fold(*now, n as int, mode, answers_view(answers@)).2,
{
    let ghost view = answers_view(answers@);
    let mut out: Vec<ZonedTime> = Vec::new();
    let mut t: ZonedTime = *now;
    let mut running = true;
    let bound: u128 = (n as u128) * 8 + 32;
    let mut i: usize = 0;
    proof {
        assert(view.take(0) =~= Seq::<(Seq<LocalLookup>, Seq<LocalLookup>, i32, i32)>::empty());
    }
    while i < answers.len()
        invariant
            0 <= i <= answers.len(),
            view == answers_view(answers@),
            answers_ok(view),
            bound == walk_bound(n as int),
            now.wf(),
            STAMP_MIN + 4 * 86400 <= now.utc_secs <= STAMP_MAX - 4 * 86400,
            walk_instant_ok(*now, t),
            walk_fold(*now, n as int, mode, view.take(i as int)) == (running, t, out@),
        decreases answers.len() - i,
    {
        proof {
            assert(view.take(i + 1).drop_last() =~= view.take(i as int));
            assert(view.take(i + 1).last() == view[i as int]);
            assert(view[i as int] == (answers@[i as int].start@, answers@[i as int].end@, answers@[i as int].end_offset, answers@[i as int].step_offset));
        }
        if running {
            if (i as u128) >= bound || out.len() >= n || t.utc_secs > STAMP_MAX - 4 * 86400 {
                running = false;
            } else {
                let a = &answers[i];
                proof {
                    assert(lookup_window(view[i as int].0) && lookup_window(view[i as int].1));
                }
                match slot_from_lookups(&t, mode, &a.start, &a.end, a.end_offset) {
                    None => {
                        running = false;
                    },
                    Some(s) => {
                        proof {
                            lemma_slot_spec_is_slot_for(t, mode, a.start@, a.end@, a.end_offset);
                        }
                        collect_break_start(&mut out, now, &s);
                        if t.is_before(&s.end) {
                            t = s.end;
                        } else {
                            proof {
                                assert(-86400 < view[i as int].3 < 86400);
                                vstd::arithmetic::div_mod::lemma_mod_multiples_vanish(5, t.utc_secs as int, 60);
                            }
                            t = ZonedTime { utc_secs: t.utc_secs + 300, nanos: t.nanos, offset_secs: a.step_offset };
                        }
                    },
                }
            }
        }
        i = i + 1;
    }
    proof {
        assert(view.take(answers.len() as int) =~= view);
    }
    out
}

/// Start instants of the next `n` break slots strictly after `now` on the
/// normal grid, oldest first.
pub fn upcoming_break_starts(now: &ZonedTime, n: usize) -> (r: Vec<ZonedTime>)
    requires
        now.wf(),
        STAMP_MIN + 4 * 86400 <= now.utc_secs <= STAMP_MAX - 4 * 86400,
    ensures
        is_upcoming(r@, *now, n as int),
        forall|i: int| 0 <= i < r.len() ==> starts_break_slot(#[trigger] r@[i], Mode::Normal),
{
    upcoming_break_starts_for(now, n, Mode::Normal)
}

/// Start instants of the next `n` break slots strictly after `now`, oldest
/// first (what iOS schedules its break notifications from). Walks slot to
/// slot; where a slot's end does not lie after the instant examined (a
/// fall-back hour resolved to its earlier instant) it steps five minutes
/// instead, and it never emits a start twice. Stops early if a wall-clock
/// reading could not be resolved.
pub fn upcoming_break_starts_for(now: &ZonedTime, n: usize, mode: Mode) -> (r: Vec<ZonedTime>)
    requires
        now.wf(),
        STAMP_MIN + 4 * 86400 <= now.utc_secs <= STAMP_MAX - 4 * 86400,
    ensures
        is_upcoming(r@, *now, n as int),
        forall|i: int| 0 <= i < r.len() ==> starts_break_slot(#[trigger] r@[i], mode),
        exists|ans: Seq<(Seq<LocalLookup>, Seq<LocalLookup>, i32, i32)>|
            #![trigger walk_fold(*now, n as int, mode, ans)]
            answers_ok(ans) && answers_run_ok(ans) && walk_ended(*now, n as int, mode, ans) && r@ == walk_fold(
                *now,
                n as int,
                mode,
                ans,
            ).2,
{
    let mut out: Vec<ZonedTime> = Vec::new();
    let mut t: ZonedTime = *now;
    let bound: u128 = (n as u128) * 8 + 32;
    let mut i: u128 = 0;
    let ghost mut ans: Seq<(Seq<LocalLookup>, Seq<LocalLookup>, i32, i32)> = Seq::empty();
    while i < bound && out.len() < n && t.utc_secs <= STAMP_MAX - 4 * 86400
        invariant
            i <= bound,
            bound == n * 8 + 32,
            now.wf(),
            STAMP_MIN + 4 * 86400 <= now.utc_secs <= STAMP_MAX - 4 * 86400,
            t.wf(),
            now.utc_secs <= t.utc_secs,
            out.len() <= n,
            forall|k: int| 0 <= k < out.len() ==> now.before(#[trigger] out@[k]) && out@[k].wf(),
            forall|a: int, b: int|
                0 <= a < b < out.len() ==> (#[trigger] out@[a]).before(#[trigger] out@[b]),
            forall|k: int| 0 <= k < out.len() ==> starts_break_slot(#[trigger] out@[k], mode),
            ans.len() == i,
            answers_ok(ans),
            answers_run_ok(ans),
            walk_fold(*now, n as int, mode, ans) == (true, t, out@),
        decreases bound - i,
    {
        let ghost t0 = t;
        let ghost out0 = out@;
        let found = slot_for_mode(&t, mode);
        let ghost (ls, le, off) = choose|ls: Seq<LocalLookup>, le: Seq<LocalLookup>, off: i32|
            #![trigger slot_spec(t0, mode, ls, le, off)]
            lookup_run(ls) && lookup_run(le) && -86400 < off < 86400 && found == slot_spec(
                t0,
                mode,
                ls,
                le,
                off,
            );
        let slot = match found {
            Some(s) => s,
            None => {
                proof {
                    let a = (ls, le, off, 0i32);
                    let ans2 = ans.push(a);
                    assert(ans2.drop_last() =~= ans);
                    assert(walk_fold(*now, n as int, mode, ans2) == (false, t0, out0));
                    assert(answers_ok(ans2)) by {
                        assert forall|k: int| 0 <= k < ans2.len() implies ({
                            let x = #[trigger] ans2[k];
                            &&& lookup_window(x.0)
                            &&& lookup_window(x.1)
                            &&& -86400 < x.2 < 86400
                            &&& -86400 < x.3 < 86400
                        }) by {
                            if k < ans.len() {
                                assert(ans2[k] == ans[k]);
                            }
                        }
                    }
                    assert(answers_run_ok(ans2)) by {
                        assert forall|k: int| 0 <= k < ans2.len() implies ({
                            let x = #[trigger] ans2[k];
                            &&& lookup_run(x.0)
                            &&& lookup_run(x.1)
                            &&& -86400 < x.2 < 86400
                            &&& -86400 < x.3 < 86400
                        }) by {
                            if k < ans.len() {
                                assert(ans2[k] == ans[k]);
                            }
                        }
                    }
                    assert(walk_ended(*now, n as int, mode, ans2));
                }
                return out;
            },
        };
        let ghost before = out@;
        let pushed = collect_break_start(&mut out, now, &slot);
        if pushed {
            proof {
                assert(is_slot_for(slot, t, mode));
                assert forall|k: int| 0 <= k < out.len() implies starts_break_slot(#[trigger] out@[k], mode) by {
                    if k < before.len() {
                        assert(out@[k] == before[k]);
                    }
                }
                assert forall|a: int, b: int| 0 <= a < b < out.len() implies (
                #[trigger] out@[a]).before(#[trigger] out@[b]) by {
                    if b == out.len() - 1 && a < b {
                        if a < before.len() - 1 {
                            lemma_before_transitive(out@[a], before[before.len() - 1], slot.start);
                        }
                    }
                }
            }
        }
        let ghost mut step_off: i32 = 0;
        if t.is_before(&slot.end) {
            t = slot.end;
        } else {
            t = local_add_minutes(&t, 5);
            proof {
                step_off = t.offset_secs;
            }
        }
        proof {
            let a = (ls, le, off, step_off);
            let ans2 = ans.push(a);
            assert(ans2.drop_last() =~= ans);
            assert(ans2.last() == a);
            assert(walk_fold(*now, n as int, mode, ans2) == (true, t, out@));
            assert forall|k: int| 0 <= k < ans2.len() implies ({
                let x = #[trigger] ans2[k];
                &&& lookup_window(x.0)
                &&& lookup_window(x.1)
                &&& -86400 < x.2 < 86400
                &&& -86400 < x.3 < 86400
            }) by {
                if k < ans.len() {
                    assert(ans2[k] == ans[k]);
                }
            }
            assert forall|k: int| 0 <= k < ans2.len() implies ({
                let x = #[trigger] ans2[k];
                &&& lookup_run(x.0)
                &&& lookup_run(x.1)
                &&& -86400 < x.2 < 86400
                &&& -86400 < x.3 < 86400
            }) by {
                if k < ans.len() {
                    assert(ans2[k] == ans[k]);
                }
            }
            ans = ans2;
        }
        i = i + 1;
    }
    proof {
        assert(walk_ended(*now, n as int, mode, ans));
    }
    out
}

// ---------------------------------------------------------------------------
// The walk in a zone without clock changes
// ---------------------------------------------------------------------------

/// The answers of a zone at the fixed offset `o` (no clock change): every
/// reading happens once, at `o`, and every instant is at `o`.
pub open spec fn uniform_answers(o: i32, len: nat) -> Seq<(Seq<LocalLookup>, Seq<LocalLookup>, i32, i32)> {
    Seq::new(len, |k: int| (seq![LocalLookup::Single(o)], seq![LocalLookup::Single(o)], o, o))
}

/// Seconds into the wall-clock hour.
pub open spec fn local_pos(t: ZonedTime) -> int {
    t.naive() % 3600
}

/// Where in the hour a slot of `mode` starts.
pub open spec fn is_band_start(p: int, mode: Mode) -> bool {
    match mode {
        Mode::Normal => p == 0 || p == 1500 || p == 1800 || p == 3300,
        Mode::Concentration => p == 0 || p == 1500 || p == 1560 || p == 3000,
    }
}

/// Where in the hour a break of `mode` starts (:25 and :55, or :25 and :50).
pub open spec fn is_break_start_pos(p: int, mode: Mode) -> bool {
    match mode {
        Mode::Normal => p == 1500 || p == 3300,
        Mode::Concentration => p == 1500 || p == 3000,
    }
}

/// `b` is a break start of the grid at offset `o`.
pub open spec fn is_grid_break_start(b: ZonedTime, o: i32, mode: Mode) -> bool {
    &&& b.offset_secs == o
    &&& b.nanos == 0
    &&& is_break_start_pos(local_pos(b), mode)
}

proof fn lemma_pos(x: int)
    ensures
        0 <= x % 3600 < 3600,
        0 <= x % 60 < 60,
        0 <= (x % 3600) / 60 < 60,
        ((x % 3600) / 60) * 60 + x % 60 == x % 3600,
        x - x % 3600 == 3600 * (x / 3600),
{
    vstd::arithmetic::div_mod::lemma_fundamental_div_mod(x, 3600);
    vstd::arithmetic::div_mod::lemma_fundamental_div_mod(x % 3600, 60);
    vstd::arithmetic::div_mod::lemma_mod_mod(x, 60, 60);
}

proof fn lemma_pos_in_hour(q: int, d: int)
    requires
        0 <= d < 3600,
    ensures
        (3600 * q + d) % 3600 == d,
{
    vstd::arithmetic::div_mod::lemma_fundamental_div_mod_converse_mod(3600 * q + d, 3600, q, d);
}

/// What the walk keeps true in a zone at offset `o`, after `k` steps.
spec fn uniform_walk_inv(now: ZonedTime, n: int, mode: Mode, o: i32, st: (bool, ZonedTime, Seq<ZonedTime>), k: int) -> bool {
    let t = st.1;
    let out = st.2;
    &&& t.offset_secs == o
    &&& (t == now && out.len() == 0 && (st.0 ==> k == 0)) || (t.nanos == 0 && now.before(t) && is_band_start(
        local_pos(t),
        mode,
    ))
    &&& now.utc_secs <= t.utc_secs <= now.utc_secs + 1500 * k
    &&& 0 <= k
    &&& forall|i: int|
        0 <= i < out.len() ==> is_grid_break_start(#[trigger] out[i], o, mode) && now.before(out[i])
            && out[i].before(t)
    &&& forall|i: int, j: int| 0 <= i < j < out.len() ==> (#[trigger] out[i]).before(#[trigger] out[j])
    &&& forall|b: ZonedTime|
        #[trigger] is_grid_break_start(b, o, mode) && now.before(b) && b.before(t) ==> out.contains(b)
    &&& out.len() <= n
    &&& st.0 ==> (k == 0 || 2 * out.len() + (if is_break_start_pos(local_pos(t), mode) {
        1int
    } else {
        0int
    }) >= k - 1)
    &&& !st.0 ==> out.len() >= n
}

spec fn uniform_range_ok(now: ZonedTime, n: int, o: i32) -> bool {
    &&& now.wf()
    &&& now.offset_secs == o
    &&& STAMP_MIN + 4 * 86400 <= now.utc_secs
    &&& 0 <= n
    &&& now.utc_secs + 3000 * n + 3000 <= STAMP_MAX - 4 * 86400
}

proof fn lemma_uniform_stop_means_full(now: ZonedTime, n: int, mode: Mode, o: i32, st: (bool, ZonedTime, Seq<ZonedTime>), k: int)
    requires
        uniform_range_ok(now, n, o),
        uniform_walk_inv(now, n, mode, o, st, k),
        st.0,
        walk_stops(n, st.1, st.2, k),
    ensures
        st.2.len() >= n,
{
    if st.2.len() < n {
        assert(k <= 2 * n);
        assert(st.1.utc_secs <= now.utc_secs + 1500 * k);
        assert(1500 * k <= 3000 * n) by (nonlinear_arith)
            requires
                k <= 2 * n,
        ;
    }
}

proof fn lemma_uniform_step(now: ZonedTime, n: int, mode: Mode, o: i32, st: (bool, ZonedTime, Seq<ZonedTime>), k: int)
    requires
        uniform_range_ok(now, n, o),
        uniform_walk_inv(now, n, mode, o, st, k),
    ensures
        uniform_walk_inv(
            now,
            n,
            mode,
            o,
            walk_step(now, n, mode, st, (seq![LocalLookup::Single(o)], seq![LocalLookup::Single(o)], o, o), k),
            k + 1,
        ),
{
    let a = (seq![LocalLookup::Single(o)], seq![LocalLookup::Single(o)], o, o);
    let t = st.1;
    let out = st.2;
    let next = walk_step(now, n, mode, st, a, k);
    if !st.0 || walk_stops(n, t, out, k) {
        if st.0 {
            lemma_uniform_stop_means_full(now, n, mode, o, st, k);
        }
        assert(next == (false, t, out));
        return;
    }
    let x = t.naive();
    lemma_pos(x);
    let p = x % 3600;
    let q = x / 3600;
    let base = t.hour_base();
    assert(base == 3600 * q);
    let m = t.minute_spec();
    let sc = t.second_spec();
    lemma_band_contains(mode, m, sc);
    let bd = band_spec(mode, m, sc);
    let bs = bd.start_min * 60 + bd.start_sec;
    let be = bd.end_min * 60 + bd.end_sec;
    assert(bs <= p < be <= 3600);
    assert(be - bs <= 1500);
    let one = seq![LocalLookup::Single(o)];
    assert(first_resolved_from(one, 0) == Some(0int));
    assert(lookup_offset(one[0]) == Some(o));
    let st_z = ZonedTime { utc_secs: (base + bs - o) as i64, nanos: 0, offset_secs: o };
    let en_z = ZonedTime { utc_secs: (base + be - o) as i64, nanos: 0, offset_secs: o };
    assert(resolve_spec(base + bd.start_min * 60 + bd.start_sec, one) == Some(st_z));
    if bd.end_min == 60 {
        assert(resolve_spec(base, one) == Some(ZonedTime { utc_secs: (base - o) as i64, nanos: 0, offset_secs: o }));
    } else {
        assert(resolve_spec(base + bd.end_min * 60 + bd.end_sec, one) == Some(en_z));
    }
    let s = Slot { phase: bd.phase, start: st_z, end: en_z };
    assert(slot_spec(t, mode, a.0, a.1, a.2) == Some(s));
    assert(t.before(s.end));
    let out2 = if keeps_break_start(out, now, s) { out.push(s.start) } else { out };
    assert(next == (true, en_z, out2));
    // where the walk lands
    let pe = if be < 3600 { be } else { 0 };
    if be < 3600 {
        lemma_pos_in_hour(q, be);
    } else {
        lemma_pos_in_hour(q + 1, 0);
        assert(3600 * q + 3600 == 3600 * (q + 1) + 0);
    }
    assert(local_pos(en_z) == pe);
    assert(is_band_start(pe, mode));
    assert(is_break_start_pos(pe, mode) <==> bd.phase != Phase::Break);
    let first = t == now && out.len() == 0 && k == 0;
    if !first {
        assert(p == bs);
        assert(s.start == t);
        assert(bd.phase == Phase::Break <==> is_break_start_pos(p, mode));
    } else {
        assert(!now.before(s.start));
    }
    assert(out2.len() <= n);
    // every collected start is a grid break start between now and the new instant
    assert forall|i: int| 0 <= i < out2.len() implies is_grid_break_start(#[trigger] out2[i], o, mode)
        && now.before(out2[i]) && out2[i].before(en_z) by {
        if i < out.len() {
            assert(out2[i] == out[i]);
        }
    }
    assert forall|i: int, j: int| 0 <= i < j < out2.len() implies (#[trigger] out2[i]).before(#[trigger] out2[j]) by {
        if j >= out.len() {
            assert(out2[i] == out[i]);
            assert(out[i].before(t));
        } else {
            assert(out2[i] == out[i] && out2[j] == out[j]);
        }
    }
    // no break start is skipped
    assert forall|b: ZonedTime|
        #[trigger] is_grid_break_start(b, o, mode) && now.before(b) && b.before(en_z) implies out2.contains(b) by {
        if b.before(t) {
            let w = choose|i: int| 0 <= i < out.len() && out[i] == b;
            assert(out2[w] == b);
        } else if b.utc_secs == t.utc_secs {
            assert(b == t);
            assert(!first);
            assert(out2.last() == b);
        } else {
            let d = b.utc_secs + o - base;
            assert(p < d < be);
            lemma_pos_in_hour(q, d);
            assert(b.naive() == 3600 * q + d);
            assert(local_pos(b) == d);
            assert(false);
        }
    }
    assert(now.utc_secs <= en_z.utc_secs <= now.utc_secs + 1500 * (k + 1));
    assert(en_z.nanos == 0 && now.before(en_z) && is_band_start(local_pos(en_z), mode));
    assert(k + 1 == 0 || 2 * out2.len() + (if is_break_start_pos(local_pos(en_z), mode) {
        1int
    } else {
        0int
    }) >= k);
}

proof fn lemma_uniform_walk(now: ZonedTime, n: int, mode: Mode, o: i32, len: nat)
    requires
        uniform_range_ok(now, n, o),
    ensures
        uniform_walk_inv(now, n, mode, o, walk_fold(now, n, mode, uniform_answers(o, len)), len as int),
    decreases len,
{
    if len > 0 {
        lemma_uniform_walk(now, n, mode, o, (len - 1) as nat);
        let ans = uniform_answers(o, len);
        assert(ans.drop_last() =~= uniform_answers(o, (len - 1) as nat));
        lemma_uniform_step(now, n, mode, o, walk_fold(now, n, mode, ans.drop_last()), len - 1);
    } else {
        assert(uniform_answers(o, len).len() == 0);
    }
}

/// In a zone without clock changes, the walk over upcoming slots lists the
/// grid's break starts after `now`, in order, skipping none up to the last
/// one listed, and -- once it is over -- exactly `n` of them (when `n`
/// half-hours from `now` stay inside the representable range).
pub proof fn lemma_walk_without_clock_change(now: ZonedTime, n: nat, mode: Mode, o: i32, len: nat)
    requires
        now.wf(),
        now.offset_secs == o,
        STAMP_MIN + 4 * 86400 <= now.utc_secs,
        now.utc_secs + 3000 * n + 3000 <= STAMP_MAX - 4 * 86400,
    ensures
        ({
            let ans = uniform_answers(o, len);
            let r = walk_fold(now, n as int, mode, ans).2;
            &&& walk_ended(now, n as int, mode, ans) ==> r.len() == n
            &&& forall|i: int|
                0 <= i < r.len() ==> is_grid_break_start(#[trigger] r[i], o, mode) && now.before(r[i])
            &&& forall|i: int, j: int| 0 <= i < j < r.len() ==> (#[trigger] r[i]).before(#[trigger] r[j])
            &&& forall|b: ZonedTime|
                #[trigger] is_grid_break_start(b, o, mode) && now.before(b) && r.len() > 0 && !r.last().before(b)
                    ==> r.contains(b)
        }),
{
    let ans = uniform_answers(o, len);
    lemma_uniform_walk(now, n as int, mode, o, len);
    let st = walk_fold(now, n as int, mode, ans);
    if walk_ended(now, n as int, mode, ans) && st.0 {
        lemma_uniform_stop_means_full(now, n as int, mode, o, st, len as int);
    }
    let r = st.2;
    assert forall|b: ZonedTime|
        #[trigger] is_grid_break_start(b, o, mode) && now.before(b) && r.len() > 0 && !r.last().before(b)
            implies r.contains(b) by {
        assert(r[r.len() - 1].before(st.1));
        assert(b.before(st.1));
    }
}

/// A reading whose resolution fails was asked about for all 180 minutes
/// and never happened.
proof fn lemma_failed_resolution_is_unresolved(naive: int, ls: Seq<LocalLookup>)
    requires
        lookup_run(ls),
        resolve_spec(naive, ls) is None,
    ensures
        unresolved_run(ls),
{
    lemma_first_resolved_from(ls, 0);
    assert forall|i: int| 0 <= i < ls.len() implies #[trigger] ls[i] == LocalLookup::Missing by {
        assert(lookup_offset(ls[i]) is None);
    }
}

proof fn lemma_walk_done_reason(
    now: ZonedTime,
    n: int,
    mode: Mode,
    ans: Seq<(Seq<LocalLookup>, Seq<LocalLookup>, i32, i32)>,
)
    requires
        answers_run_ok(ans),
    ensures
        ({
            let st = walk_fold(now, n, mode, ans);
            !st.0 ==> (st.2.len() >= n || ans.len() > walk_bound(n) || st.1.utc_secs > STAMP_MAX - 4 * 86400
                || exists|k: int|
                0 <= k < ans.len() && (unresolved_run(#[trigger] ans[k].0) || unresolved_run(ans[k].1)))
        }),
    decreases ans.len(),
{
    if ans.len() > 0 {
        let prev = ans.drop_last();
        assert forall|k: int| 0 <= k < prev.len() implies ({
            let a = #[trigger] prev[k];
            &&& lookup_run(a.0)
            &&& lookup_run(a.1)
            &&& -86400 < a.2 < 86400
            &&& -86400 < a.3 < 86400
        }) by {
            assert(prev[k] == ans[k]);
        }
        lemma_walk_done_reason(now, n, mode, prev);
        let ps = walk_fold(now, n, mode, prev);
        let a = ans.last();
        let k = prev.len() as int;
        assert(ans[k] == a);
        if !ps.0 {
            if exists|j: int| 0 <= j < prev.len() && (unresolved_run(#[trigger] prev[j].0) || unresolved_run(prev[j].1)) {
                let j = choose|j: int| 0 <= j < prev.len() && (unresolved_run(#[trigger] prev[j].0) || unresolved_run(prev[j].1));
                assert(ans[j] == prev[j]);
            }
        } else if !walk_stops(n, ps.1, ps.2, k) {
            let t = ps.1;
            let b = band_spec(mode, t.minute_spec(), t.second_spec());
            let base = t.hour_base();
            if slot_spec(t, mode, a.0, a.1, a.2) is None {
                if resolve_spec(base + b.start_min * 60 + b.start_sec, a.0) is None {
                    lemma_failed_resolution_is_unresolved(base + b.start_min * 60 + b.start_sec, a.0);
                } else if b.end_min == 60 {
                    lemma_failed_resolution_is_unresolved(base, a.1);
                } else {
                    lemma_failed_resolution_is_unresolved(base + b.end_min * 60 + b.end_sec, a.1);
                }
            }
        }
    }
}

/// The walk ends with fewer than `n` starts only at its step bound, at the
/// end of the representable range, or where the zone left a reading
/// unresolved for all 180 minutes asked about -- never for an answer the
/// zone could give within a clock change.
pub proof fn lemma_walk_short_only_when_unresolved(
    now: ZonedTime,
    n: int,
    mode: Mode,
    ans: Seq<(Seq<LocalLookup>, Seq<LocalLookup>, i32, i32)>,
)
    requires
        answers_run_ok(ans),
        walk_ended(now, n, mode, ans),
        walk_fold(now, n, mode, ans).2.len() < n,
    ensures
        ans.len() >= walk_bound(n) || walk_fold(now, n, mode, ans).1.utc_secs > STAMP_MAX - 4 * 86400
            || exists|k: int|
            0 <= k < ans.len() && (unresolved_run(#[trigger] ans[k].0) || unresolved_run(ans[k].1)),
{
    lemma_walk_done_reason(now, n, mode, ans);
}

} // verus!
