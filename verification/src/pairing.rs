//! The pairing handshake. The PIN never becomes key material: it only
//! authenticates a SPAKE2 exchange, whose 32-byte shared key then keys a
//! Noise `NNpsk0` handshake. That handshake doubles as key confirmation: if
//! the PINs differ, the two sides derive different keys and the first Noise
//! message fails to open, which is reported as a PIN mismatch. The network
//! reads and writes run outside; each step's decision is made here.
use vstd::prelude::*;

use crate::p2p::{admit_pairing_attempt, PairingSession, MAX_PAIRING_ATTEMPTS};
use crate::text::concat;

verus! {

#[verifier::external_type_specification]
#[verifier::external_body]
pub struct ExHandshakeState(snow::HandshakeState);

#[verifier::external_type_specification]
#[verifier::external_body]
pub struct ExTransportState(snow::TransportState);

/// The joining side's SPAKE2 state between its two messages. Verus cannot
/// declare `spake2::Spake2<G>` itself (its parameter is bound by spake2's
/// `Group` trait), so the state is held opaque here.
#[verifier::external_body]
pub struct PakeJoiner {
    inner: spake2::Spake2<spake2::Ed25519Group>,
}

/// The Noise pattern every pairing and sync session uses.
pub const NOISE_PATTERN: &'static str = "Noise_NNpsk0_25519_ChaChaPoly_BLAKE2s";

/// The SPAKE2 identity of the side that opened the pairing window.
pub open spec fn host_identity_spec() -> Seq<u8> {
    seq![114u8, 101u8, 102u8, 108u8, 101u8, 99u8, 116u8, 111u8, 100u8, 111u8, 114u8, 111u8, 45u8, 112u8, 97u8, 105u8, 114u8, 105u8, 110u8, 103u8, 45u8, 104u8, 111u8, 115u8, 116u8]
}

/// The SPAKE2 identity of the side that dials in with the PIN.
pub open spec fn joiner_identity_spec() -> Seq<u8> {
    seq![114u8, 101u8, 102u8, 108u8, 101u8, 99u8, 116u8, 111u8, 100u8, 111u8, 114u8, 111u8, 45u8, 112u8, 97u8, 105u8, 114u8, 105u8, 110u8, 103u8, 45u8, 106u8, 111u8, 105u8, 110u8, 101u8, 114u8]
}

/// "not accepting pairing right now", as bytes.
pub open spec fn not_accepting_spec() -> Seq<u8> {
    seq![110u8, 111u8, 116u8, 32u8, 97u8, 99u8, 99u8, 101u8, 112u8, 116u8, 105u8, 110u8, 103u8, 32u8, 112u8, 97u8, 105u8, 114u8, 105u8, 110u8, 103u8, 32u8, 114u8, 105u8, 103u8, 104u8, 116u8, 32u8, 110u8, 111u8, 119u8]
}

fn host_identity() -> (r: Vec<u8>)
    ensures
        r@ == host_identity_spec(),
{
    let v: Vec<u8> = vec![114u8, 101u8, 102u8, 108u8, 101u8, 99u8, 116u8, 111u8, 100u8, 111u8, 114u8, 111u8, 45u8, 112u8, 97u8, 105u8, 114u8, 105u8, 110u8, 103u8, 45u8, 104u8, 111u8, 115u8, 116u8];
    proof {
        assert(v@ =~= host_identity_spec());
    }
    v
}

fn joiner_identity() -> (r: Vec<u8>)
    ensures
        r@ == joiner_identity_spec(),
{
    let v: Vec<u8> = vec![114u8, 101u8, 102u8, 108u8, 101u8, 99u8, 116u8, 111u8, 100u8, 111u8, 114u8, 111u8, 45u8, 112u8, 97u8, 105u8, 114u8, 105u8, 110u8, 103u8, 45u8, 106u8, 111u8, 105u8, 110u8, 101u8, 114u8];
    proof {
        assert(v@ =~= joiner_identity_spec());
    }
    v
}

fn rejection_reply() -> (r: Vec<u8>)
    ensures
        r@ == seq![1u8] + not_accepting_spec(),
{
    let v: Vec<u8> = vec![1u8, 110u8, 111u8, 116u8, 32u8, 97u8, 99u8, 99u8, 101u8, 112u8, 116u8, 105u8, 110u8, 103u8, 32u8, 112u8, 97u8, 105u8, 114u8, 105u8, 110u8, 103u8, 32u8, 114u8, 105u8, 103u8, 104u8, 116u8, 32u8, 110u8, 111u8, 119u8];
    proof {
        assert(v@ =~= seq![1u8] + not_accepting_spec());
    }
    v
}

// ---------------------------------------------------------------------------
// SPAKE2 and Noise
// ---------------------------------------------------------------------------

/// SPAKE2's host side: `Spake2::<Ed25519Group>::start_a` under the PIN and
/// the two identities, then `finish` on the joiner's message. The host's
/// message is its side byte and a 32-byte group element (33 bytes); the key
/// is a SHA-256 digest (32 bytes); `finish` refuses a message of any other
/// length than 33 bytes (`Error::WrongLength`), with spake2's `Debug` text.
#[verifier::external_body]
fn spake_host(pin: &str, id_a: &[u8], id_b: &[u8], joiner_msg: &[u8]) -> (r: (Vec<u8>, Result<Vec<u8>, String>))
    ensures
        r.0@.len() == 33,
        joiner_msg@.len() != 33 ==> r.1 is Err,
        r.1 matches Ok(k) ==> k@.len() == 32,
{
    let password = spake2::Password::new(pin.as_bytes());
    let (state, msg) = spake2::Spake2::<spake2::Ed25519Group>::start_a(
        &password,
        &spake2::Identity::new(id_a),
        &spake2::Identity::new(id_b),
    );
    (msg, state.finish(joiner_msg).map_err(|e| format!("{e:?}")))
}

/// SPAKE2's joining side, first half: `Spake2::<Ed25519Group>::start_b`;
/// its message is 33 bytes, as the host's.
#[verifier::external_body]
fn spake_join_start(pin: &str, id_a: &[u8], id_b: &[u8]) -> (r: (PakeJoiner, Vec<u8>))
    ensures
        r.1@.len() == 33,
{
    let password = spake2::Password::new(pin.as_bytes());
    let (inner, msg) = spake2::Spake2::<spake2::Ed25519Group>::start_b(
        &password,
        &spake2::Identity::new(id_a),
        &spake2::Identity::new(id_b),
    );
    (PakeJoiner { inner }, msg)
}

/// SPAKE2's joining side, second half: `finish` on the host's message; a
/// 32-byte key, or `None` when spake2 refuses (any message but 33 bytes is
/// refused).
#[verifier::external_body]
fn spake_join_finish(state: PakeJoiner, host_msg: &[u8]) -> (r: Option<Vec<u8>>)
    ensures
        host_msg@.len() != 33 ==> r is None,
        r matches Some(k) ==> k@.len() == 32,
{
    state.inner.finish(host_msg).ok()
}

/// `snow::Builder::new(pattern.parse()).psk(0, key)` built as initiator or
/// responder. The key must be 32 bytes: snow copies it into a 32-byte
/// array.
#[verifier::external_body]
fn noise_handshake(pattern: &str, key: &[u8], initiator: bool) -> (r: Result<snow::HandshakeState, String>)
    requires
        key@.len() == 32,
{
    let params: snow::params::NoiseParams = pattern.parse().map_err(|e: snow::Error| e.to_string())?;
    let builder = snow::Builder::new(params).psk(0, key);
    let built = if initiator { builder.build_initiator() } else { builder.build_responder() };
    built.map_err(|e| e.to_string())
}

/// `HandshakeState::write_message` into a buffer of Noise's maximum size;
/// the message written.
#[verifier::external_body]
fn noise_write(hs: &mut snow::HandshakeState, payload: &[u8]) -> (r: Result<Vec<u8>, String>) {
    let mut buf = vec![0u8; crate::p2p::NOISE_MAX_MSG];
    let n = hs.write_message(payload, &mut buf).map_err(|e| e.to_string())?;
    buf.truncate(n);
    Ok(buf)
}

/// `HandshakeState::read_message` into a buffer of Noise's maximum size;
/// the payload read, or snow's refusal (an AEAD tag that does not verify).
#[verifier::external_body]
fn noise_read(hs: &mut snow::HandshakeState, msg: &[u8]) -> (r: Result<Vec<u8>, String>) {
    let mut buf = vec![0u8; crate::p2p::NOISE_MAX_MSG];
    let n = hs.read_message(msg, &mut buf).map_err(|e| e.to_string())?;
    buf.truncate(n);
    Ok(buf)
}

/// `HandshakeState::into_transport_mode`.
#[verifier::external_body]
fn noise_into_transport(hs: snow::HandshakeState) -> (r: Result<snow::TransportState, String>) {
    hs.into_transport_mode().map_err(|e| e.to_string())
}

/// `String::from_utf8_lossy`: the bytes as text, with every invalid sequence
/// replaced by U+FFFD.
pub uninterp spec fn utf8_lossy_text(bytes: Seq<u8>) -> Seq<char>;

#[verifier::external_body]
fn utf8_lossy(bytes: &[u8]) -> (r: String)
    ensures
        r@ == utf8_lossy_text(bytes@),
{
    String::from_utf8_lossy(bytes).to_string()
}

// ---------------------------------------------------------------------------
// The host
// ---------------------------------------------------------------------------

/// Whether a pairing window admits an attempt at `now_ms`: open, not
/// expired, and under five attempts.
pub open spec fn admits(session: Option<PairingSession>, now_ms: i64) -> bool {
    session matches Some(s) && s.expires_at_ms > now_ms && s.attempts < MAX_PAIRING_ATTEMPTS
}

/// What the host answers a joiner's SPAKE2 message with.
#[derive(Debug)]
pub enum HostPairing {
    /// No window admits the attempt: the reply is status 1 and the reason.
    Rejected { reply: Vec<u8> },
    /// The attempt counted: the reply is status 0 and the host's SPAKE2
    /// message; the shared key, or why SPAKE2 refused the joiner's message.
    Accepted { reply: Vec<u8>, key: Result<Vec<u8>, String> },
}

/// The host's first step on a pairing connection: the attempt is admitted
/// (and counted) only while the window is open, unexpired and under five
/// attempts; a refused attempt is answered with status 1 and "not accepting
/// pairing right now"; an admitted one with status 0 and the host's SPAKE2
/// message under the window's PIN, and the key SPAKE2 derives.
pub fn pairing_host_step(session: &mut Option<PairingSession>, now_ms: i64, joiner_msg: &Vec<u8>) -> (r: HostPairing)
    ensures
        !admits(*old(session), now_ms) ==> (r matches HostPairing::Rejected { reply } && reply@ == seq![
            1u8,
        ] + not_accepting_spec()) && *final(session) == *old(session),
        admits(*old(session), now_ms) ==> {
            &&& r matches HostPairing::Accepted { reply, key } && reply@.len() == 34 && reply@[0]
                == 0u8 && (joiner_msg@.len() != 33 ==> key is Err) && (key matches Ok(k) ==> k@.len()
                == 32)
            &&& *final(session) matches Some(t) && t.attempts == old(session)->0.attempts + 1
                && t.pin == old(session)->0.pin && t.expires_at_ms == old(session)->0.expires_at_ms
        },
{
    match admit_pairing_attempt(session, now_ms) {
        None => HostPairing::Rejected { reply: rejection_reply() },
        Some(pin) => {
            let id_a = host_identity();
            let id_b = joiner_identity();
            let (msg, key) = spake_host(pin.as_str(), id_a.as_slice(), id_b.as_slice(), joiner_msg.as_slice());
            let mut reply: Vec<u8> = vec![0u8];
            let mut m = msg;
            reply.append(&mut m);
            HostPairing::Accepted { reply, key }
        },
    }
}

/// The host's Noise responder under the SPAKE2 key, reading the joiner's
/// first message: a message that does not open means the two sides
/// derived different keys, i.e. the PINs differed ("pairing handshake
/// failed from {peer}: PIN mismatch").
pub fn host_read_first_message(hs: &mut snow::HandshakeState, msg1: &Vec<u8>, peer: &str) -> (r: Result<(), String>)
    ensures
        r matches Err(e) ==> e@ == "pairing handshake failed from "@ + peer@ + ": PIN mismatch"@,
{
    match noise_read(hs, msg1.as_slice()) {
        Ok(_) => Ok(()),
        Err(_) => {
            let a = concat("pairing handshake failed from ", peer);
            Err(concat(a.as_str(), ": PIN mismatch"))
        },
    }
}

/// The responder's read of a sync session's first Noise message, under the
/// key stored at pairing: one that does not open is a failed handshake
/// from that device, with snow's reason after it.
pub fn sync_read_first_message(hs: &mut snow::HandshakeState, msg1: &Vec<u8>, dialer_id: &str) -> (r: Result<(), String>)
    ensures
        r matches Err(e) ==> exists|d: Seq<char>| e@ == "sync handshake failed from "@ + dialer_id@ + ": "@ + d,
{
    match noise_read(hs, msg1.as_slice()) {
        Ok(_) => Ok(()),
        Err(d) => {
            let a = concat("sync handshake failed from ", dialer_id);
            let b = concat(a.as_str(), ": ");
            let e = concat(b.as_str(), d.as_str());
            proof {
                assert(e@ == "sync handshake failed from "@ + dialer_id@ + ": "@ + d@);
            }
            Err(e)
        },
    }
}

/// The dialer's read of the responder's Noise answer; snow's reason when
/// it does not open.
pub fn read_noise_answer(hs: &mut snow::HandshakeState, msg2: &Vec<u8>) -> (r: Result<(), String>) {
    match noise_read(hs, msg2.as_slice()) {
        Ok(_) => Ok(()),
        Err(d) => Err(d),
    }
}

/// Starts the Noise handshake of a pairing or sync session under a 32-byte
/// key.
pub fn start_noise(key: &Vec<u8>, initiator: bool) -> (r: Result<snow::HandshakeState, String>)
    requires
        key@.len() == 32,
{
    noise_handshake(NOISE_PATTERN, key.as_slice(), initiator)
}

/// Writes the next Noise handshake message (with an empty payload).
pub fn write_noise_message(hs: &mut snow::HandshakeState) -> (r: Result<Vec<u8>, String>) {
    let empty: Vec<u8> = Vec::new();
    noise_write(hs, empty.as_slice())
}

/// Ends the handshake: the session's transport state.
pub fn finish_noise(hs: snow::HandshakeState) -> (r: Result<snow::TransportState, String>) {
    noise_into_transport(hs)
}

/// One successful pairing closes the window, so a PIN pairs exactly one
/// device.
pub fn close_pairing_window(session: &mut Option<PairingSession>)
    ensures
        *final(session) is None,
{
    *session = None;
}

/// A closed window admits no attempt, at any time.
pub proof fn lemma_closed_window_admits_nothing(now_ms: i64)
    ensures
        !admits(None, now_ms),
{
}

// ---------------------------------------------------------------------------
// The joiner
// ---------------------------------------------------------------------------

/// The joiner's side of SPAKE2, started under the typed PIN; its message is
/// sent to the host.
pub fn start_joining(pin: &str) -> (r: (PakeJoiner, Vec<u8>))
    ensures
        r.1@.len() == 33,
{
    let id_a = host_identity();
    let id_b = joiner_identity();
    spake_join_start(pin, id_a.as_slice(), id_b.as_slice())
}

/// The host's reply as the joiner reads it: an empty reply is "empty
/// pairing response"; a status other than 0 carries the host's reason as
/// text; status 0 carries the host's SPAKE2 message.
pub fn read_pairing_reply(resp: &Vec<u8>) -> (r: Result<Vec<u8>, String>)
    ensures
        resp@.len() == 0 ==> (r matches Err(e) && e@ == "empty pairing response"@),
        resp@.len() > 0 && resp@[0] != 0 ==> (r matches Err(e) && e@ == utf8_lossy_text(
            resp@.drop_first(),
        )),
        resp@.len() > 0 && resp@[0] == 0 ==> (r matches Ok(rest) && rest@ == resp@.drop_first()),
{
    if resp.len() == 0 {
        return Err(String::from_str("empty pairing response"));
    }
    let rest = vstd::slice::slice_to_vec(vstd::slice::slice_subrange(resp.as_slice(), 1, resp.len()));
    proof {
        assert(rest@ =~= resp@.drop_first());
    }
    if resp[0] != 0 {
        return Err(utf8_lossy(rest.as_slice()));
    }
    Ok(rest)
}

/// The joiner's key from the host's reply: the host's refusal as it gave
/// it, or SPAKE2 finished on the host's message -- a message SPAKE2 refuses
/// means the PINs differed ("pairing failed -- incorrect PIN").
pub fn joiner_key(state: PakeJoiner, resp: &Vec<u8>) -> (r: Result<Vec<u8>, String>)
    ensures
        resp@.len() == 0 ==> (r matches Err(e) && e@ == "empty pairing response"@),
        resp@.len() > 0 && resp@[0] != 0 ==> (r matches Err(e) && e@ == utf8_lossy_text(
            resp@.drop_first(),
        )),
        resp@.len() > 0 && resp@[0] == 0 && resp@.len() != 34 ==> (r matches Err(e) && e@
            == "pairing failed -- incorrect PIN"@),
        r matches Ok(k) ==> k@.len() == 32 && resp@.len() == 34 && resp@[0] == 0,
{
    let host_msg = read_pairing_reply(resp)?;
    match spake_join_finish(state, host_msg.as_slice()) {
        Some(k) => Ok(k),
        None => Err(String::from_str("pairing failed -- incorrect PIN")),
    }
}

/// The joiner reading the host's Noise answer: one that does not open means
/// the PINs differed ("pairing failed -- incorrect PIN").
pub fn joiner_read_answer(hs: &mut snow::HandshakeState, msg2: &Vec<u8>) -> (r: Result<(), String>)
    ensures
        r matches Err(e) ==> e@ == "pairing failed -- incorrect PIN"@,
{
    match noise_read(hs, msg2.as_slice()) {
        Ok(_) => Ok(()),
        Err(_) => Err(String::from_str("pairing failed -- incorrect PIN")),
    }
}

} // verus!
