use reflectodoro::breakit::generate_challenge;

#[test]
fn respects_length() {
    assert_eq!(generate_challenge(15, false).chars().count(), 15);
    assert_eq!(generate_challenge(2, false).chars().count(), 4);
    assert_eq!(generate_challenge(200, false).chars().count(), 64);
}

#[test]
fn excludes_special_by_default() {
    let s = generate_challenge(200_u32.min(64), false);
    assert!(s.chars().all(|c| c.is_ascii_alphanumeric()));
}

#[test]
fn can_include_special() {
    let found = (0..20).any(|_| generate_challenge(64, true).chars().any(|c| !c.is_ascii_alphanumeric()));
    assert!(found);
}

#[test]
fn look_alike_characters_never_appear() {
    for _ in 0..20 {
        let s = generate_challenge(64, true);
        assert!(!s.chars().any(|c| "0O1lI".contains(c)));
    }
}
