//! The rules of LAN pairing and sync between two devices: the hex form the
//! shared secret is stored in, when a pairing attempt is admitted, how a
//! connection is dispatched and framed, which discovered devices are
//! offered, and what a sync reports. The sockets, mDNS, SPAKE2 and Noise
//! run outside.
use rand::{Rng, RngCore};
use vstd::string::StringSliceAdditionalSpecFns;
use vstd::prelude::*;

use crate::import::{
    ImportNotToDoRow, ImportReflectionRow, ImportScreenTimeSessionRow, ImportTaskListRow,
    ImportWellnessCheckRow,
};

verus! {

pub const TAG_PAIRING: u8 = 0x01;
pub const TAG_SYNC: u8 = 0x02;

/// How many PIN attempts one pairing window admits.
pub const MAX_PAIRING_ATTEMPTS: u32 = 5;

/// How long a pairing window stays open (60 s, in milliseconds).
pub const PAIRING_WINDOW_MS: i64 = 60_000;

/// Noise's own per-message ceiling.
pub const NOISE_MAX_MSG: usize = 65535;

/// Plaintext chunk size of an encrypted JSON message.
pub const PLAINTEXT_CHUNK: usize = 60_000;

// ---------------------------------------------------------------------------
// Hex
// ---------------------------------------------------------------------------

pub open spec fn hex_digit(n: int) -> u8 {
    if n < 10 {
        (48 + n) as u8
    } else {
        (87 + n) as u8
    }
}

/// Lowercase two-digit hex of every byte (`format!("{b:02x}")`).
pub open spec fn hex_encode_spec(bytes: Seq<u8>) -> Seq<u8>
    decreases bytes.len(),
{
    if bytes.len() == 0 {
        Seq::<u8>::empty()
    } else {
        let b = bytes.last();
        hex_encode_spec(bytes.drop_last()) + seq![hex_digit(b as int / 16), hex_digit(b as int % 16)]
    }
}

/// The value of one hex digit byte, or -1.
pub open spec fn hex_value(b: u8) -> int {
    if 48 <= b <= 57 {
        b - 48
    } else if 97 <= b <= 102 {
        b - 87
    } else if 65 <= b <= 70 {
        b - 55
    } else {
        -1
    }
}

/// `u8::from_str_radix` of a two-byte string in base 16: two hex digits,
/// or a `+` sign and one digit.
pub open spec fn pair_value(b0: u8, b1: u8) -> Option<u8> {
    if b0 == 43 {
        if hex_value(b1) >= 0 {
            Some(hex_value(b1) as u8)
        } else {
            None
        }
    } else if hex_value(b0) >= 0 && hex_value(b1) >= 0 {
        Some((16 * hex_value(b0) + hex_value(b1)) as u8)
    } else {
        None
    }
}

/// The bytes a hex string of even length decodes to, pair by pair.
pub open spec fn hex_pairs(bytes: Seq<u8>) -> Option<Seq<u8>>
    decreases bytes.len(),
{
    if bytes.len() < 2 {
        Some(Seq::<u8>::empty())
    } else {
        let n = bytes.len();
        match (hex_pairs(bytes.subrange(0, n - 2)), pair_value(bytes[n - 2], bytes[n - 1])) {
            (Some(p), Some(v)) => Some(p.push(v)),
            _ => None,
        }
    }
}

/// No pair of a hex string starts inside a multi-byte character (slicing
/// there would panic).
pub open spec fn pairs_on_boundaries(bytes: Seq<u8>) -> bool {
    forall|k: int| 0 <= k < bytes.len() && k % 2 == 0 ==> !(0x80 <= #[trigger] bytes[k] < 0xC0)
}

pub open spec fn hex_error_odd() -> Seq<char> {
    "invalid hex string (odd length)"@
}

pub open spec fn hex_error_digit() -> Seq<char> {
    "invalid digit found in string"@
}

fn hex_digit_byte(n: u8) -> (r: u8)
    requires
        n < 16,
    ensures
        r == hex_digit(n as int),
{
    if n < 10 {
        48 + n
    } else {
        87 + n
    }
}

/// Lowercase hex of `bytes`.
pub fn hex_encode(bytes: &[u8]) -> (r: String)
    ensures
        r@.len() == 2 * bytes@.len(),
        forall|i: int| 0 <= i < r@.len() ==> (#[trigger] r@[i]) as int == hex_encode_spec(bytes@)[i] as int,
{
    let mut out: Vec<u8> = Vec::new();
    let mut i: usize = 0;
    while i < bytes.len()
        invariant
            0 <= i <= bytes.len(),
            out@ == hex_encode_spec(bytes@.take(i as int)),
            out@.len() == 2 * i,
            forall|k: int| 0 <= k < out@.len() ==> #[trigger] out@[k] < 128,
        decreases bytes.len() - i,
    {
        let b = bytes[i];
        out.push(hex_digit_byte(b / 16));
        out.push(hex_digit_byte(b % 16));
        proof {
            assert(bytes@.take(i + 1).drop_last() =~= bytes@.take(i as int));
            assert(bytes@.take(i + 1).last() == b);
        }
        i = i + 1;
    }
    proof {
        assert(bytes@.take(bytes.len() as int) =~= bytes@);
    }
    ascii_string(&out)
}

/// The characters of ASCII bytes, one for one.
pub open spec fn ascii_chars(bytes: Seq<u8>) -> Seq<char> {
    Seq::new(bytes.len(), |i: int| bytes[i] as char)
}

fn ascii_string(bytes: &Vec<u8>) -> (r: String)
    requires
        forall|i: int| 0 <= i < bytes.len() ==> #[trigger] bytes@[i] < 128,
    ensures
        r@.len() == bytes@.len(),
        forall|i: int| 0 <= i < r@.len() ==> (#[trigger] r@[i]) as int == bytes@[i] as int,
{
    let mut cs: Vec<char> = Vec::new();
    let mut i: usize = 0;
    while i < bytes.len()
        invariant
            0 <= i <= bytes.len(),
            forall|k: int| 0 <= k < bytes.len() ==> #[trigger] bytes@[k] < 128,
            cs@.len() == i,
            forall|k: int| 0 <= k < i ==> (#[trigger] cs@[k]) as int == bytes@[k] as int,
        decreases bytes.len() - i,
    {
        let c = crate::text::char_from_ascii(bytes[i] as u32);
        cs.push(c);
        i = i + 1;
    }
    crate::text::string_from_chars(cs.as_slice())
}

fn hex_value_of(b: u8) -> (r: Option<u8>)
    ensures
        hex_value(b) >= 0 ==> r == Some(hex_value(b) as u8),
        hex_value(b) < 0 ==> r is None,
{
    if 48 <= b && b <= 57 {
        Some(b - 48)
    } else if 97 <= b && b <= 102 {
        Some(b - 87)
    } else if 65 <= b && b <= 70 {
        Some(b - 55)
    } else {
        None
    }
}

/// Decodes a hex string: an odd length is refused first; then every pair
/// must be two hex digits (either case) or `+` and one digit.
pub fn hex_decode(s: &str) -> (r: Result<Vec<u8>, String>)
    requires
        s.spec_bytes().len() % 2 == 0 ==> pairs_on_boundaries(s.spec_bytes()),
    ensures
        s.spec_bytes().len() % 2 != 0 ==> (r matches Err(e) && e@ == hex_error_odd()),
        s.spec_bytes().len() % 2 == 0 ==> match hex_pairs(s.spec_bytes()) {
            Some(v) => r matches Ok(out) && out@ == v,
            None => r matches Err(e) && e@ == hex_error_digit(),
        },
{
    let bytes = s.as_bytes();
    if bytes.len() % 2 != 0 {
        return Err(String::from_str("invalid hex string (odd length)"));
    }
    let ghost bs = bytes@;
    let mut out: Vec<u8> = Vec::new();
    let mut i: usize = 0;
    proof {
        assert(bs.subrange(0, 0) =~= Seq::<u8>::empty());
    }
    while i < bytes.len()
        invariant
            0 <= i <= bytes.len(),
            i % 2 == 0,
            bytes.len() % 2 == 0,
            bs == bytes@,
            bs == s.spec_bytes(),
            hex_pairs(bs.subrange(0, i as int)) == Some(out@),
        decreases bytes.len() - i,
    {
        let b0 = bytes[i];
        let b1 = bytes[i + 1];
        let v: Option<u8> = if b0 == 43 {
            hex_value_of(b1)
        } else {
            match (hex_value_of(b0), hex_value_of(b1)) {
                (Some(h), Some(l)) => Some(16 * h + l),
                _ => None,
            }
        };
        let ghost next = bs.subrange(0, i + 2);
        proof {
            assert(next.subrange(0, next.len() - 2) =~= bs.subrange(0, i as int));
            assert(next[next.len() - 2] == b0 && next[next.len() - 1] == b1);
            assert(v == pair_value(b0, b1));
        }
        match v {
            Some(x) => {
                out.push(x);
            },
            None => {
                proof {
                    lemma_hex_pairs_fail_extends(bs, i as int + 2);
                }
                return Err(String::from_str("invalid digit found in string"));
            },
        }
        i = i + 2;
    }
    proof {
        assert(bs.subrange(0, bs.len() as int) =~= bs);
    }
    Ok(out)
}

/// Once a prefix of pairs fails to decode, every longer even prefix does.
proof fn lemma_hex_pairs_fail_extends(bs: Seq<u8>, i: int)
    requires
        2 <= i <= bs.len(),
        i % 2 == 0,
        bs.len() % 2 == 0,
        hex_pairs(bs.subrange(0, i)) is None,
    ensures
        hex_pairs(bs) is None,
    decreases bs.len() - i,
{
    if i == bs.len() {
        assert(bs.subrange(0, i) =~= bs);
    } else {
        let next = bs.subrange(0, i + 2);
        assert(next.subrange(0, next.len() - 2) =~= bs.subrange(0, i));
        lemma_hex_pairs_fail_extends(bs, i + 2);
    }
}

proof fn lemma_hex_encode_ascii(bytes: Seq<u8>)
    ensures
        forall|i: int| 0 <= i < hex_encode_spec(bytes).len() ==> #[trigger] hex_encode_spec(bytes)[i] < 128,
    decreases bytes.len(),
{
    if bytes.len() > 0 {
        let p = hex_encode_spec(bytes.drop_last());
        lemma_hex_encode_ascii(bytes.drop_last());
        let b = bytes.last();
        let t = seq![hex_digit(b as int / 16), hex_digit(b as int % 16)];
        assert(t[0] < 128 && t[1] < 128);
        assert forall|i: int| 0 <= i < hex_encode_spec(bytes).len() implies #[trigger] hex_encode_spec(bytes)[i] < 128 by {
            if i < p.len() {
                assert(hex_encode_spec(bytes)[i] == p[i]);
            } else {
                assert(hex_encode_spec(bytes)[i] == t[i - p.len()]);
            }
        }
    }
}

/// The text `hex_encode` returns decodes, through `hex_decode`, to the
/// bytes it was made from: its UTF-8 bytes are the hex digits themselves,
/// every pair starts on a character boundary, and the pairs give the bytes
/// back.
pub proof fn lemma_hex_encode_then_decode(bytes: Seq<u8>, s: &str)
    requires
        s@.len() == 2 * bytes.len(),
        forall|i: int| 0 <= i < s@.len() ==> (#[trigger] s@[i]) as int == hex_encode_spec(bytes)[i] as int,
    ensures
        s.spec_bytes() == hex_encode_spec(bytes),
        s.spec_bytes().len() % 2 == 0,
        pairs_on_boundaries(s.spec_bytes()),
        hex_pairs(s.spec_bytes()) == Some(bytes),
{
    lemma_hex_round_trip(bytes);
    lemma_hex_encode_ascii(bytes);
    assert forall|i: int| 0 <= i < s@.len() implies '\0' <= #[trigger] s@[i] <= '\u{7f}' by {
        assert(hex_encode_spec(bytes)[i] < 128);
    }
    assert(vstd::utf8::is_ascii_chars(s@));
    vstd::utf8::is_ascii_chars_encode_utf8(s@);
    assert forall|i: int| 0 <= i < s@.len() implies #[trigger] s.spec_bytes()[i] == hex_encode_spec(bytes)[i] by {
        assert(vstd::utf8::encode_utf8(s@)[i] == s@[i] as u8);
        assert(hex_encode_spec(bytes)[i] < 128);
    }
    assert(s.spec_bytes() =~= hex_encode_spec(bytes));
}

/// Decoding what `hex_encode` wrote gives the bytes back.
pub proof fn lemma_hex_round_trip(bytes: Seq<u8>)
    ensures
        hex_pairs(hex_encode_spec(bytes)) == Some(bytes),
        hex_encode_spec(bytes).len() == 2 * bytes.len(),
        pairs_on_boundaries(hex_encode_spec(bytes)),
    decreases bytes.len(),
{
    if bytes.len() > 0 {
        let p = bytes.drop_last();
        lemma_hex_round_trip(p);
        let e = hex_encode_spec(bytes);
        let b = bytes.last();
        assert(e.subrange(0, e.len() - 2) =~= hex_encode_spec(p));
        assert(pair_value(e[e.len() - 2], e[e.len() - 1]) == Some(b));
        assert(p.push(b) =~= bytes);
        assert forall|k: int| 0 <= k < e.len() && k % 2 == 0 implies !(0x80 <= #[trigger] e[k] < 0xC0) by {
            if k < e.len() - 2 {
                assert(e[k] == hex_encode_spec(p)[k]);
            }
        }
    } else {
        assert(hex_encode_spec(bytes) =~= Seq::<u8>::empty());
        assert(bytes =~= Seq::<u8>::empty());
    }
}

// ---------------------------------------------------------------------------
// Pairing
// ---------------------------------------------------------------------------

/// An open pairing window: its PIN, when it closes, and how many attempts
/// it has admitted.
#[derive(Clone, Debug)]
pub struct PairingSession {
    pub pin: String,
    pub expires_at_ms: i64,
    pub attempts: u32,
}

/// A fresh window for `pin`, open for 60 s from `now_ms`.
pub fn open_pairing_session(pin: String, now_ms: i64) -> (r: PairingSession)
    requires
        now_ms <= i64::MAX - PAIRING_WINDOW_MS,
    ensures
        r.pin == pin,
        r.expires_at_ms == now_ms + PAIRING_WINDOW_MS,
        r.attempts == 0,
{
    PairingSession { pin, expires_at_ms: now_ms + PAIRING_WINDOW_MS, attempts: 0 }
}

/// A pairing attempt: admitted (its PIN handed out, the attempt counted)
/// only while a window is open, not expired, and under five attempts.
pub fn admit_pairing_attempt(session: &mut Option<PairingSession>, now_ms: i64) -> (r: Option<String>)
    ensures
        match *old(session) {
            Some(s) => if s.expires_at_ms > now_ms && s.attempts < MAX_PAIRING_ATTEMPTS {
                r matches Some(p) && p@ == s.pin@ && (*final(session) matches Some(t) && t.attempts
                    == s.attempts + 1 && t.pin == s.pin && t.expires_at_ms == s.expires_at_ms)
            } else {
                r is None && *final(session) == *old(session)
            },
            None => r is None && *final(session) is None,
        },
{
    match session {
        Some(s) => {
            if s.expires_at_ms > now_ms && s.attempts < MAX_PAIRING_ATTEMPTS {
                s.attempts = s.attempts + 1;
                Some(s.pin.clone())
            } else {
                None
            }
        },
        None => None,
    }
}

/// A window admits at most five attempts, however many arrive.
pub proof fn lemma_pairing_attempts_capped(s: PairingSession, now_ms: i64)
    requires
        s.attempts >= MAX_PAIRING_ATTEMPTS,
    ensures
        !(s.expires_at_ms > now_ms && s.attempts < MAX_PAIRING_ATTEMPTS),
{
}

/// Which side of the protocol a connection's first byte asks for.
#[derive(Clone, Copy, Debug, PartialEq, Eq, Structural)]
pub enum ConnectionKind {
    Pairing,
    Sync,
}

pub fn connection_kind(tag: u8) -> (r: Result<ConnectionKind, String>)
    ensures
        tag == TAG_PAIRING ==> r == Ok::<ConnectionKind, String>(ConnectionKind::Pairing),
        tag == TAG_SYNC ==> r == Ok::<ConnectionKind, String>(ConnectionKind::Sync),
        tag != TAG_PAIRING && tag != TAG_SYNC ==> (r matches Err(e) && e@ == "unknown connection tag "@
            + crate::text::decimal_spec(tag as nat)),
{
    if tag == TAG_PAIRING {
        Ok(ConnectionKind::Pairing)
    } else if tag == TAG_SYNC {
        Ok(ConnectionKind::Sync)
    } else {
        Err(crate::text::concat("unknown connection tag ", crate::text::u64_text(tag as u64).as_str()))
    }
}

/// A frame's length prefix is accepted only up to `max_len`.
pub fn frame_len_ok(len: u32, max_len: u32) -> (r: bool)
    ensures
        r == (len <= max_len),
{
    len <= max_len
}

/// How many encrypted chunks a plaintext of `len` bytes is sent in: one
/// for an empty message, else one per started 60 000 bytes.
pub fn chunk_count(len: usize) -> (r: usize)
    ensures
        r == chunk_count_spec(len as int),
{
    if len == 0 {
        1
    } else {
        len / PLAINTEXT_CHUNK + if len % PLAINTEXT_CHUNK == 0 { 0 } else { 1 }
    }
}

/// The number of pieces `chunk_count` gives for a plaintext of `len` bytes.
pub open spec fn chunk_count_spec(len: int) -> int {
    if len == 0 {
        1
    } else {
        (len + PLAINTEXT_CHUNK - 1) / (PLAINTEXT_CHUNK as int)
    }
}

/// The `i`-th piece of a plaintext cut into `PLAINTEXT_CHUNK`-byte pieces
/// (`<[u8]>::chunks`); the last one may be shorter.
pub open spec fn chunk_at(p: Seq<u8>, i: int) -> Seq<u8> {
    let c = PLAINTEXT_CHUNK as int;
    p.subrange(i * c, if (i + 1) * c < p.len() { (i + 1) * c } else { p.len() as int })
}

pub open spec fn chunks_view(chunks: Seq<Vec<u8>>) -> Seq<Seq<u8>> {
    Seq::new(chunks.len(), |i: int| chunks[i]@)
}

/// The pieces one after another.
pub open spec fn flatten(chunks: Seq<Seq<u8>>) -> Seq<u8>
    decreases chunks.len(),
{
    if chunks.len() == 0 {
        Seq::<u8>::empty()
    } else {
        flatten(chunks.drop_last()) + chunks.last()
    }
}

proof fn lemma_ceil_pieces(n: int, i: int)
    requires
        n > 0,
        i >= 1,
        (i - 1) * 60_000 < n <= i * 60_000,
    ensures
        i == (n + 60_000 - 1) / 60_000,
{
    let q = (n + 60_000 - 1) / 60_000;
    vstd::arithmetic::div_mod::lemma_fundamental_div_mod(n + 60_000 - 1, 60_000);
    assert(0 <= (n + 60_000 - 1) % 60_000 < 60_000);
    assert(i == q) by (nonlinear_arith)
        requires
            (i - 1) * 60_000 < n <= i * 60_000,
            n + 60_000 - 1 == 60_000 * q + (n + 60_000 - 1) % 60_000,
            0 <= (n + 60_000 - 1) % 60_000 < 60_000,
    ;
}

/// Cuts a message's plaintext into the pieces sent one Noise message each
/// (a sync payload can exceed one message): 60 000 bytes each but the last,
/// and a single empty piece for an empty message.
pub fn split_plaintext(plaintext: &[u8]) -> (r: Vec<Vec<u8>>)
    ensures
        r.len() == chunk_count_spec(plaintext@.len() as int),
        forall|i: int| 0 <= i < r.len() ==> (#[trigger] r@[i])@ == chunk_at(plaintext@, i),
{
    let n = plaintext.len();
    let mut out: Vec<Vec<u8>> = Vec::new();
    if n == 0 {
        out.push(Vec::new());
        proof {
            assert(out@[0]@ =~= chunk_at(plaintext@, 0));
        }
        return out;
    }
    let mut start: usize = 0;
    let mut i: usize = 0;
    while start < n
        invariant
            n == plaintext@.len(),
            n > 0,
            start <= n,
            out.len() == i,
            start < n ==> start == i * PLAINTEXT_CHUNK,
            start == n ==> i >= 1 && n <= i * PLAINTEXT_CHUNK,
            i >= 1 ==> (i - 1) * PLAINTEXT_CHUNK < n,
            forall|k: int| 0 <= k < i ==> (#[trigger] out@[k])@ == chunk_at(plaintext@, k),
        decreases n - start,
    {
        let end: usize = if n - start > PLAINTEXT_CHUNK { start + PLAINTEXT_CHUNK } else { n };
        let piece = vstd::slice::slice_to_vec(vstd::slice::slice_subrange(plaintext, start, end));
        proof {
            assert(piece@ == chunk_at(plaintext@, i as int));
        }
        out.push(piece);
        start = end;
        i = i + 1;
    }
    proof {
        lemma_ceil_pieces(n as int, i as int);
    }
    out
}

/// What the receiver rebuilds from the decrypted pieces: their bytes one
/// after another.
pub fn join_pieces(pieces: &Vec<Vec<u8>>) -> (r: Vec<u8>)
    ensures
        r@ == flatten(chunks_view(pieces@)),
{
    let mut out: Vec<u8> = Vec::new();
    let mut i: usize = 0;
    while i < pieces.len()
        invariant
            0 <= i <= pieces.len(),
            out@ == flatten(chunks_view(pieces@).take(i as int)),
        decreases pieces.len() - i,
    {
        let ghost before = out@;
        out.extend_from_slice(pieces[i].as_slice());
        proof {
            assert(chunks_view(pieces@).take(i + 1).drop_last() =~= chunks_view(pieces@).take(i as int));
            assert(out@ =~= before + pieces@[i as int]@);
        }
        i = i + 1;
    }
    proof {
        assert(chunks_view(pieces@).take(pieces.len() as int) =~= chunks_view(pieces@));
    }
    out
}

proof fn lemma_flatten_prefix(p: Seq<u8>, chunks: Seq<Seq<u8>>, k: int)
    requires
        p.len() > 0,
        0 <= k <= chunks.len(),
        forall|i: int| 0 <= i < chunks.len() ==> #[trigger] chunks[i] == chunk_at(p, i),
        (chunks.len() - 1) * 60_000 < p.len(),
    ensures
        flatten(chunks.take(k)) == p.subrange(0, if k * 60_000 < p.len() { k * 60_000 } else { p.len() as int }),
    decreases k,
{
    if k == 0 {
        assert(chunks.take(0) =~= Seq::<Seq<u8>>::empty());
        assert(p.subrange(0, 0) =~= Seq::<u8>::empty());
    } else {
        lemma_flatten_prefix(p, chunks, k - 1);
        assert(chunks.take(k).drop_last() =~= chunks.take(k - 1));
        assert(chunks.take(k).last() == chunk_at(p, k - 1));
        assert((k - 1) * 60_000 < p.len()) by (nonlinear_arith)
            requires
                k <= chunks.len(),
                (chunks.len() - 1) * 60_000 < p.len(),
        ;
        let lo = (k - 1) * 60_000;
        let hi = if k * 60_000 < p.len() { k * 60_000 } else { p.len() as int };
        assert(p.subrange(0, lo) + p.subrange(lo, hi) =~= p.subrange(0, hi));
    }
}

/// Reassembling the pieces a plaintext was cut into gives the plaintext
/// back: what the sender splits, the receiver rebuilds unchanged.
pub proof fn lemma_pieces_rebuild_plaintext(p: Seq<u8>, pieces: Seq<Seq<u8>>)
    requires
        pieces.len() == chunk_count_spec(p.len() as int),
        forall|i: int| 0 <= i < pieces.len() ==> #[trigger] pieces[i] == chunk_at(p, i),
    ensures
        flatten(pieces) == p,
{
    if p.len() == 0 {
        assert(pieces.drop_last() =~= Seq::<Seq<u8>>::empty());
        assert(flatten(pieces.drop_last()) =~= Seq::<u8>::empty());
        assert(pieces[0] =~= Seq::<u8>::empty());
        assert(flatten(pieces) =~= flatten(pieces.drop_last()) + pieces[0]);
        assert(flatten(pieces) =~= p);
    } else {
        let n = p.len() as int;
        let c = pieces.len() as int;
        vstd::arithmetic::div_mod::lemma_fundamental_div_mod(n + 60_000 - 1, 60_000);
        assert((c - 1) * 60_000 < n && n <= c * 60_000) by (nonlinear_arith)
            requires
                c == (n + 60_000 - 1) / 60_000,
                n + 60_000 - 1 == 60_000 * ((n + 60_000 - 1) / 60_000) + (n + 60_000 - 1) % 60_000,
                0 <= (n + 60_000 - 1) % 60_000 < 60_000,
                n > 0,
        ;
        lemma_flatten_prefix(p, pieces, c);
        assert(pieces.take(c) =~= pieces);
        assert(p.subrange(0, n) =~= p);
    }
}

/// The sync header: a piece count as four big-endian bytes
/// (`u32::to_be_bytes`).
pub open spec fn be_bytes(n: u32) -> Seq<u8> {
    seq![(n / 16777216) as u8, ((n / 65536) % 256) as u8, ((n / 256) % 256) as u8, (n % 256) as u8]
}

/// The number four big-endian bytes stand for (`u32::from_be_bytes`).
pub open spec fn be_value(b: Seq<u8>) -> int {
    b[0] * 16777216 + b[1] * 65536 + b[2] * 256 + b[3]
}

pub fn sync_header(count: u32) -> (r: Vec<u8>)
    ensures
        r@ == be_bytes(count),
{
    let v: Vec<u8> = vec![
        (count / 16777216) as u8,
        ((count / 65536) % 256) as u8,
        ((count / 256) % 256) as u8,
        (count % 256) as u8,
    ];
    proof {
        assert(v@ =~= be_bytes(count));
    }
    v
}

/// Reads the piece count out of a decrypted header; anything but four
/// bytes is "malformed sync header".
pub fn parse_sync_header(plain: &[u8]) -> (r: Result<u32, String>)
    ensures
        plain@.len() == 4 ==> r == Ok::<u32, String>(be_value(plain@) as u32),
        plain@.len() != 4 ==> (r matches Err(e) && e@ == "malformed sync header"@),
{
    if plain.len() != 4 {
        return Err(String::from_str("malformed sync header"));
    }
    let v: u32 = (plain[0] as u32) * 16777216 + (plain[1] as u32) * 65536 + (plain[2] as u32) * 256
        + plain[3] as u32;
    Ok(v)
}

/// A header read back gives the count it was written with.
pub proof fn lemma_sync_header_round_trip(count: u32)
    ensures
        be_value(be_bytes(count)) == count,
{
    let b0 = count / 16777216;
    let b1 = (count / 65536) % 256;
    let b2 = (count / 256) % 256;
    let b3 = count % 256;
    assert(b0 < 256 && b1 < 256 && b2 < 256 && b3 < 256);
    assert(b0 * 16777216 + b1 * 65536 + b2 * 256 + b3 == count) by (nonlinear_arith)
        requires
            b0 == count / 16777216,
            b1 == (count / 65536) % 256,
            b2 == (count / 256) % 256,
            b3 == count % 256,
    ;
}

// ---------------------------------------------------------------------------
// Devices
// ---------------------------------------------------------------------------

#[derive(Clone, Debug)]
pub struct DiscoveredDevice {
    pub device_id: String,
    pub name: String,
    pub platform: String,
}

impl DiscoveredDevice {
    /// A field-by-field copy.
    pub fn duplicate(&self) -> (r: Self)
        ensures
            r.device_id@ == self.device_id@,
            r.name@ == self.name@,
            r.platform@ == self.platform@,
    {
        DiscoveredDevice {
            device_id: self.device_id.clone(),
            name: self.name.clone(),
            platform: self.platform.clone(),
        }
    }
}

#[derive(Clone, Debug)]
pub struct PairedDeviceInfo {
    pub device_id: String,
    pub name: String,
    pub platform: String,
    pub paired_at: String,
    pub last_sync_at: Option<String>,
    /// Whether it answered a fresh LAN browse.
    pub online: bool,
}

pub open spec fn ids_contain(ids: Seq<String>, id: Seq<char>) -> bool {
    exists|k: int| 0 <= k < ids.len() && (#[trigger] ids[k])@ == id
}

fn contains_id(ids: &Vec<String>, id: &String) -> (r: bool)
    ensures
        r == ids_contain(ids@, id@),
{
    let mut i: usize = 0;
    while i < ids.len()
        invariant
            0 <= i <= ids.len(),
            forall|k: int| 0 <= k < i ==> (#[trigger] ids@[k])@ != id@,
        decreases ids.len() - i,
    {
        if ids[i] == *id {
            return true;
        }
        i = i + 1;
    }
    false
}

/// A discovered device as plain values: id, name, platform.
pub open spec fn device_view(d: DiscoveredDevice) -> (Seq<char>, Seq<char>, Seq<char>) {
    (d.device_id@, d.name@, d.platform@)
}

pub open spec fn devices_view(ds: Seq<DiscoveredDevice>) -> Seq<(Seq<char>, Seq<char>, Seq<char>)> {
    Seq::new(ds.len(), |k: int| device_view(ds[k]))
}

/// A device is offered for pairing unless it is this device or already
/// paired.
pub open spec fn is_candidate(self_id: Seq<char>, paired: Seq<String>) -> spec_fn(
    (Seq<char>, Seq<char>, Seq<char>),
) -> bool {
    |v: (Seq<char>, Seq<char>, Seq<char>)| v.0 != self_id && !ids_contain(paired, v.0)
}

/// The devices the "pair a new device" flow offers: everything found on the
/// LAN but this device itself and devices already paired, in the order
/// found.
pub fn pairing_candidates(found: Vec<DiscoveredDevice>, self_id: &String, paired: &Vec<String>) -> (r: Vec<DiscoveredDevice>)
    ensures
        devices_view(r@) == devices_view(found@).filter(is_candidate(self_id@, paired@)),
{
    let ghost pred = is_candidate(self_id@, paired@);
    let mut out: Vec<DiscoveredDevice> = Vec::new();
    let mut i: usize = 0;
    while i < found.len()
        invariant
            0 <= i <= found.len(),
            pred == is_candidate(self_id@, paired@),
            devices_view(out@) == devices_view(found@).take(i as int).filter(pred),
        decreases found.len() - i,
    {
        let d = &found[i];
        let ghost before = out@;
        proof {
            reveal(Seq::filter);
            assert(devices_view(found@).take(i + 1).drop_last() =~= devices_view(found@).take(i as int));
            assert(devices_view(found@).take(i + 1).last() == device_view(found@[i as int]));
        }
        if d.device_id != *self_id && !contains_id(paired, &d.device_id) {
            out.push(d.duplicate());
            proof {
                assert(devices_view(out@) =~= devices_view(before).push(device_view(found@[i as int])));
            }
        } else {
            proof {
                assert(!pred(device_view(found@[i as int])));
            }
        }
        i = i + 1;
    }
    proof {
        assert(devices_view(found@).take(found.len() as int) =~= devices_view(found@));
    }
    out
}

/// A stored paired device, with whether its id answered the browse.
pub fn annotate_online(
    device_id: String,
    name: String,
    platform: String,
    paired_at: String,
    last_sync_at: Option<String>,
    online_ids: &Vec<String>,
) -> (r: PairedDeviceInfo)
    ensures
        r.device_id == device_id,
        r.name == name,
        r.platform == platform,
        r.paired_at == paired_at,
        r.last_sync_at == last_sync_at,
        r.online == ids_contain(online_ids@, device_id@),
{
    let online = contains_id(online_ids, &device_id);
    PairedDeviceInfo { device_id, name, platform, paired_at, last_sync_at, online }
}

// ---------------------------------------------------------------------------
// Sync payloads and results
// ---------------------------------------------------------------------------

/// One direction of a sync: the rows changed since the pair's last sync.
/// Settings never travel.
#[derive(Clone, Debug)]
pub struct SyncPayload {
    pub reflection: Vec<ImportReflectionRow>,
    pub daily_task_list: Vec<ImportTaskListRow>,
    pub not_to_do_list: Vec<ImportNotToDoRow>,
    pub wellness_check: Vec<ImportWellnessCheckRow>,
    pub screen_time_session: Vec<ImportScreenTimeSessionRow>,
}

pub open spec fn payload_rows(p: SyncPayload) -> int {
    p.reflection.len() + p.daily_task_list.len() + p.not_to_do_list.len() + p.wellness_check.len()
        + p.screen_time_session.len()
}

/// Total rows of a payload.
pub fn sync_payload_row_count(payload: &SyncPayload) -> (r: usize)
    requires
        payload_rows(*payload) <= usize::MAX,
    ensures
        r == payload_rows(*payload),
{
    payload.reflection.len() + payload.daily_task_list.len() + payload.not_to_do_list.len()
        + payload.wellness_check.len() + payload.screen_time_session.len()
}

#[derive(Clone, Copy, Debug, PartialEq, Eq, Structural)]
pub struct SyncResult {
    /// Rows sent to the peer.
    pub sent_count: usize,
    pub reflection_count: usize,
    pub task_list_count: usize,
    pub not_to_do_list_count: usize,
    pub wellness_check_count: usize,
    pub screen_time_session_count: usize,
    pub merged_slot_count: usize,
    pub screen_time_duplicate_count: usize,
    pub wellness_check_duplicate_count: usize,
}

/// What applying a received payload reports (the sent count is the
/// caller's to fill in).
pub fn sync_result(
    incoming: &SyncPayload,
    sent_count: usize,
    merged_slot_count: usize,
    screen_time_duplicate_count: usize,
    wellness_check_duplicate_count: usize,
) -> (r: SyncResult)
    ensures
        r.sent_count == sent_count,
        r.reflection_count == incoming.reflection.len(),
        r.task_list_count == incoming.daily_task_list.len(),
        r.not_to_do_list_count == incoming.not_to_do_list.len(),
        r.wellness_check_count == incoming.wellness_check.len(),
        r.screen_time_session_count == incoming.screen_time_session.len(),
        r.merged_slot_count == merged_slot_count,
        r.screen_time_duplicate_count == screen_time_duplicate_count,
        r.wellness_check_duplicate_count == wellness_check_duplicate_count,
{
    SyncResult {
        sent_count,
        reflection_count: incoming.reflection.len(),
        task_list_count: incoming.daily_task_list.len(),
        not_to_do_list_count: incoming.not_to_do_list.len(),
        wellness_check_count: incoming.wellness_check.len(),
        screen_time_session_count: incoming.screen_time_session.len(),
        merged_slot_count,
        screen_time_duplicate_count,
        wellness_check_duplicate_count,
    }
}

/// The tables a sync carries, each with its own rev cursor per peer.
pub open spec fn synced_tables_spec() -> Seq<Seq<char>> {
    seq![
        "reflection"@,
        "daily_task_list"@,
        "not_to_do_list"@,
        "wellness_check"@,
        "screen_time_session"@,
    ]
}

pub fn synced_tables() -> (r: Vec<&'static str>)
    ensures
        r@.len() == synced_tables_spec().len(),
        forall|i: int| 0 <= i < r@.len() ==> (#[trigger] r@[i])@ == synced_tables_spec()[i],
{
    let v = vec!["reflection", "daily_task_list", "not_to_do_list", "wellness_check", "screen_time_session"];
    proof {
        reveal_strlit("reflection");
        reveal_strlit("daily_task_list");
        reveal_strlit("not_to_do_list");
        reveal_strlit("wellness_check");
        reveal_strlit("screen_time_session");
    }
    v
}

/// Whether a row goes into a delta: written after the peer's cursor for its
/// table and no later than the high mark taken when the sync started. Every
/// write gives a row a rev above every rev in its table, so the cursor
/// compares writes, not the timestamps a row carries.
pub open spec fn in_delta_spec(rev: int, cursor: int, high: int) -> bool {
    cursor < rev <= high
}

/// Where a delta starts: the cursor stored for the peer and table, or 0
/// before the first sync (every written row has a rev of at least 1).
pub fn delta_start_rev(stored: Option<i64>) -> (r: i64)
    ensures
        r == (match stored {
            Some(c) => c,
            None => 0,
        }),
{
    match stored {
        Some(c) => c,
        None => 0,
    }
}

/// `in_delta_spec` on values.
pub fn in_delta(rev: i64, cursor: i64, high: i64) -> (r: bool)
    ensures
        r == in_delta_spec(rev as int, cursor as int, high as int),
{
    cursor < rev && rev <= high
}

/// After a sync that completed up to `high`, a row written again (any row,
/// however old its timestamps) gets a rev above every rev then in the table,
/// so it is in the next delta; a row not written since is not.
pub proof fn lemma_rewritten_row_is_resent(old_rev: int, new_rev: int, high: int, next_high: int)
    requires
        old_rev <= high,
        high < new_rev <= next_high,
    ensures
        !in_delta_spec(old_rev, high, next_high),
        in_delta_spec(new_rev, high, next_high),
{
}

// ---------------------------------------------------------------------------
// Randomness
// ---------------------------------------------------------------------------

/// `thread_rng().gen_range(0..10u8)`: a random digit value.
#[verifier::external_body]
fn random_digit() -> (r: u8)
    ensures
        r < 10,
{
    rand::thread_rng().gen_range(0..10u8)
}

/// `thread_rng().fill_bytes`: `len` random bytes.
#[verifier::external_body]
fn random_bytes(len: usize) -> (r: Vec<u8>)
    ensures
        r@.len() == len,
{
    let mut buf = vec![0u8; len];
    rand::thread_rng().fill_bytes(&mut buf);
    buf
}

/// A random PIN of `len` decimal digits.
pub fn random_numeric_pin(len: usize) -> (r: String)
    ensures
        r@.len() == len,
        forall|i: int| 0 <= i < r@.len() ==> '0' <= #[trigger] r@[i] <= '9',
{
    let mut cs: Vec<char> = Vec::new();
    let mut i: usize = 0;
    while i < len
        invariant
            0 <= i <= len,
            cs@.len() == i,
            forall|k: int| 0 <= k < i ==> '0' <= #[trigger] cs@[k] <= '9',
        decreases len - i,
    {
        let d = random_digit();
        let c = crate::text::char_from_ascii(48 + d as u32);
        cs.push(c);
        i = i + 1;
    }
    crate::text::string_from_chars(cs.as_slice())
}

/// A random identifier: `bytes` random bytes in lowercase hex.
pub fn random_hex_id(bytes: usize) -> (r: String)
    requires
        bytes <= usize::MAX / 2,
    ensures
        r@.len() == 2 * bytes,
        exists|b: Seq<u8>|
            #![trigger hex_encode_spec(b)]
            b.len() == bytes && forall|i: int|
                0 <= i < r@.len() ==> (#[trigger] r@[i]) as int == hex_encode_spec(b)[i] as int,
{
    let buf = random_bytes(bytes);
    let r = hex_encode(buf.as_slice());
    proof {
        assert(hex_encode_spec(buf@) == hex_encode_spec(buf@));
    }
    r
}

} // verus!
