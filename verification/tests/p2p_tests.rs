use reflectodoro::p2p::{
    admit_pairing_attempt, annotate_online, chunk_count, connection_kind, hex_decode, hex_encode, join_pieces,
    open_pairing_session, pairing_candidates, parse_sync_header, random_hex_id, random_numeric_pin, split_plaintext,
    sync_header, sync_payload_row_count, ConnectionKind, DiscoveredDevice, SyncPayload,
};

#[test]
fn hex_round_trips() {
    let bytes = [0u8, 1, 254, 255, 16, 128];
    assert_eq!(hex_decode(&hex_encode(&bytes)).unwrap(), bytes);
}

#[test]
fn hex_decode_rejects_odd_length() {
    assert!(hex_decode("abc").is_err());
}

#[test]
fn random_pin_is_right_length_and_numeric() {
    let pin = random_numeric_pin(6);
    assert_eq!(pin.len(), 6);
    assert!(pin.chars().all(|c| c.is_ascii_digit()));
}

#[test]
fn hex_is_lowercase_and_decoding_accepts_either_case() {
    assert_eq!(hex_encode(&[0xab, 0x0c]), "ab0c");
    assert_eq!(hex_decode("AB0c").unwrap(), vec![0xab, 0x0c]);
    assert_eq!(hex_decode("zz").unwrap_err(), "invalid digit found in string");
    assert_eq!(hex_decode("abc").unwrap_err(), "invalid hex string (odd length)");
    assert_eq!(hex_decode("").unwrap(), Vec::<u8>::new());
}

#[test]
fn hex_pairs_follow_from_str_radix() {
    assert_eq!(hex_decode("+a").unwrap(), vec![0x0a]);
    assert!(hex_decode("-a").is_err());
}

#[test]
fn a_pairing_window_admits_five_attempts_until_it_expires() {
    let mut s = Some(open_pairing_session("123456".to_string(), 1_000));
    for _ in 0..5 {
        assert_eq!(admit_pairing_attempt(&mut s, 2_000), Some("123456".to_string()));
    }
    assert_eq!(admit_pairing_attempt(&mut s, 2_000), None);
    let mut t = Some(open_pairing_session("654321".to_string(), 1_000));
    assert_eq!(admit_pairing_attempt(&mut t, 61_000), None);
    assert_eq!(admit_pairing_attempt(&mut None, 0), None);
}

#[test]
fn connections_are_dispatched_by_their_tag() {
    assert_eq!(connection_kind(1).unwrap(), ConnectionKind::Pairing);
    assert_eq!(connection_kind(2).unwrap(), ConnectionKind::Sync);
    assert_eq!(connection_kind(7).unwrap_err(), "unknown connection tag 7");
}

#[test]
fn payloads_are_chunked() {
    assert_eq!(chunk_count(0), 1);
    assert_eq!(chunk_count(60_000), 1);
    assert_eq!(chunk_count(60_001), 2);
}

#[test]
fn candidates_exclude_self_and_paired_devices() {
    let dev = |id: &str| DiscoveredDevice { device_id: id.to_string(), name: id.to_uppercase(), platform: "linux".to_string() };
    let found = vec![dev("me"), dev("a"), dev("b"), dev("c")];
    let out = pairing_candidates(found, &"me".to_string(), &vec!["b".to_string()]);
    let ids: Vec<String> = out.into_iter().map(|d| d.device_id).collect();
    assert_eq!(ids, vec!["a".to_string(), "c".to_string()]);
}

#[test]
fn an_empty_payload_has_no_rows() {
    let p = SyncPayload {
        reflection: vec![],
        daily_task_list: vec![],
        not_to_do_list: vec![],
        wellness_check: vec![],
        screen_time_session: vec![],
    };
    assert_eq!(sync_payload_row_count(&p), 0);
}

#[test]
fn plaintext_is_cut_into_full_pieces_and_rebuilt_unchanged() {
    let plaintext: Vec<u8> = (0..150_000u32).map(|i| (i % 251) as u8).collect();
    let pieces = split_plaintext(&plaintext);
    assert_eq!(pieces.len(), 3);
    assert_eq!(pieces[0].len(), 60_000);
    assert_eq!(pieces[1].len(), 60_000);
    assert_eq!(pieces[2].len(), 30_000);
    assert_eq!(pieces.len(), chunk_count(plaintext.len()));
    assert_eq!(join_pieces(&pieces), plaintext);
    let exact: Vec<u8> = vec![7u8; 120_000];
    assert_eq!(split_plaintext(&exact).len(), 2);
    let empty = split_plaintext(&[]);
    assert_eq!(empty, vec![Vec::<u8>::new()]);
    assert!(join_pieces(&empty).is_empty());
}

#[test]
fn the_sync_header_is_four_big_endian_bytes() {
    assert_eq!(sync_header(3), vec![0, 0, 0, 3]);
    assert_eq!(sync_header(0x0102_0304), vec![1, 2, 3, 4]);
    assert_eq!(sync_header(0x0102_0304), 0x0102_0304u32.to_be_bytes().to_vec());
    assert_eq!(parse_sync_header(&sync_header(u32::MAX)).unwrap(), u32::MAX);
    assert_eq!(parse_sync_header(&[1, 2, 3]).unwrap_err(), "malformed sync header");
}

#[test]
fn paired_devices_are_marked_online_by_id_and_ids_are_hex() {
    let online = vec!["abc".to_string(), "def".to_string()];
    let info = annotate_online("def".into(), "Laptop".into(), "linux".into(), "2026-01-01".into(), None, &online);
    assert!(info.online);
    assert_eq!(info.name, "Laptop");
    let off = annotate_online("xyz".into(), "Phone".into(), "android".into(), "2026-01-01".into(), Some("t".into()), &online);
    assert!(!off.online);
    assert_eq!(off.last_sync_at.as_deref(), Some("t"));
    let id = random_hex_id(8);
    assert_eq!(id.len(), 16);
    assert!(id.chars().all(|c| c.is_ascii_hexdigit() && !c.is_ascii_uppercase()));
}
