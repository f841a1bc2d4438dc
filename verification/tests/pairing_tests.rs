use reflectodoro::p2p::open_pairing_session;
use reflectodoro::pairing::{
    close_pairing_window, finish_noise, host_read_first_message, joiner_key, joiner_read_answer, pairing_host_step,
    read_noise_answer, read_pairing_reply, start_joining, start_noise, sync_read_first_message, write_noise_message,
    HostPairing,
};

fn host_answer(pin: &str, joiner_msg: &Vec<u8>) -> (Vec<u8>, Result<Vec<u8>, String>) {
    let mut session = Some(open_pairing_session(pin.to_string(), 1_000));
    match pairing_host_step(&mut session, 2_000, joiner_msg) {
        HostPairing::Accepted { reply, key } => {
            assert_eq!(session.unwrap().attempts, 1);
            (reply, key)
        }
        HostPairing::Rejected { .. } => panic!("an open window must admit the first attempt"),
    }
}

#[test]
fn matching_pins_derive_the_same_key_and_complete_the_noise_handshake() {
    let (joiner, msg) = start_joining("123456");
    assert_eq!(msg.len(), 33);
    let (reply, host_key) = host_answer("123456", &msg);
    assert_eq!(reply.len(), 34);
    assert_eq!(reply[0], 0);
    let host_key = host_key.unwrap();
    let joiner_key = joiner_key(joiner, &reply).unwrap();
    assert_eq!(host_key.len(), 32);
    assert_eq!(host_key, joiner_key, "matching PINs must derive identical keys");

    let mut initiator = start_noise(&joiner_key, true).unwrap();
    let mut responder = start_noise(&host_key, false).unwrap();
    let m1 = write_noise_message(&mut initiator).unwrap();
    assert!(host_read_first_message(&mut responder, &m1, "peer").is_ok(), "responder must accept the initiator's first message");
    let m2 = write_noise_message(&mut responder).unwrap();
    assert!(joiner_read_answer(&mut initiator, &m2).is_ok(), "initiator must accept the responder's reply");
    assert!(finish_noise(initiator).is_ok());
    assert!(finish_noise(responder).is_ok());
}

#[test]
fn mismatched_pins_fail_the_noise_handshake_rather_than_silently_diverging() {
    let (joiner, msg) = start_joining("999999");
    let (reply, host_key) = host_answer("111111", &msg);
    let host_key = host_key.unwrap();
    let joiner_key = joiner_key(joiner, &reply).unwrap();
    assert_ne!(host_key, joiner_key, "different PINs must derive different keys");
    let mut initiator = start_noise(&joiner_key, true).unwrap();
    let mut responder = start_noise(&host_key, false).unwrap();
    let m1 = write_noise_message(&mut initiator).unwrap();
    assert_eq!(
        host_read_first_message(&mut responder, &m1, "10.0.0.7:5000").unwrap_err(),
        "pairing handshake failed from 10.0.0.7:5000: PIN mismatch"
    );
}

#[test]
fn a_joiner_message_of_the_wrong_length_gets_no_key() {
    let (_, key) = host_answer("482913", &vec![1u8, 2, 3]);
    assert!(key.is_err());
}

#[test]
fn a_closed_or_used_up_window_refuses_with_status_one() {
    let mut none = None;
    let msg = vec![0u8; 33];
    match pairing_host_step(&mut none, 0, &msg) {
        HostPairing::Rejected { reply } => {
            assert_eq!(reply[0], 1);
            assert_eq!(&reply[1..], b"not accepting pairing right now");
            assert_eq!(read_pairing_reply(&reply).unwrap_err(), "not accepting pairing right now");
        }
        HostPairing::Accepted { .. } => panic!("no window is open"),
    }
    let mut expired = Some(open_pairing_session("1".to_string(), 0));
    assert!(matches!(pairing_host_step(&mut expired, 60_000, &msg), HostPairing::Rejected { .. }));
    let mut session = Some(open_pairing_session("1".to_string(), 0));
    close_pairing_window(&mut session);
    assert!(session.is_none());
    assert!(matches!(pairing_host_step(&mut session, 10, &msg), HostPairing::Rejected { .. }));
}

#[test]
fn the_joiner_reads_replies_by_their_status_byte() {
    assert_eq!(read_pairing_reply(&Vec::new()).unwrap_err(), "empty pairing response");
    assert_eq!(read_pairing_reply(&vec![0u8, 7, 8]).unwrap(), vec![7u8, 8]);
    let (joiner, _) = start_joining("1");
    assert_eq!(joiner_key(joiner, &vec![0u8, 1, 2]).unwrap_err(), "pairing failed -- incorrect PIN");
}

#[test]
fn a_sync_under_a_different_stored_key_fails_its_handshake() {
    let mut dialer = start_noise(&vec![1u8; 32], true).unwrap();
    let mut responder = start_noise(&vec![2u8; 32], false).unwrap();
    let m1 = write_noise_message(&mut dialer).unwrap();
    let err = sync_read_first_message(&mut responder, &m1, "dev-1").unwrap_err();
    assert!(err.starts_with("sync handshake failed from dev-1: "), "{err}");

    let mut dialer = start_noise(&vec![3u8; 32], true).unwrap();
    let mut responder = start_noise(&vec![3u8; 32], false).unwrap();
    let m1 = write_noise_message(&mut dialer).unwrap();
    assert!(sync_read_first_message(&mut responder, &m1, "dev-1").is_ok());
    let m2 = write_noise_message(&mut responder).unwrap();
    assert!(read_noise_answer(&mut dialer, &m2).is_ok());
}
