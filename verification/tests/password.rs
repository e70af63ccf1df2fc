//! Password hashes: their stored form, hashing, and checking.

use folderlock::password::{hash_with_salt, stretch, verify_password, ROUNDS};
use sha2::{Digest, Sha256};

fn hex(bytes: &[u8]) -> String {
    bytes.iter().map(|b| format!("{b:02x}")).collect()
}

#[test]
fn one_round_is_sha256_of_salt_and_password() {
    let d = stretch(b"", "abc", 1);
    assert_eq!(hex(&d), "ba7816bf8f01cfea414140de5dae2223b00361a396177a9cb410ff61f20015ad");
    let d = stretch(b"ab", "c", 1);
    assert_eq!(hex(&d), "ba7816bf8f01cfea414140de5dae2223b00361a396177a9cb410ff61f20015ad");
}

#[test]
fn each_round_hashes_the_salt_and_the_digest_before() {
    let salt = [1u8, 2, 3];
    let one = stretch(&salt, "비밀번호", 1);
    let mut again = salt.to_vec();
    again.extend_from_slice(&one);
    let two: Vec<u8> = Sha256::digest(&again).to_vec();
    assert_eq!(stretch(&salt, "비밀번호", 2), two);
    let mut first = salt.to_vec();
    first.extend_from_slice("비밀번호".as_bytes());
    assert_eq!(one, Sha256::digest(&first).to_vec());
}

#[test]
fn stored_form() {
    let h = hash_with_salt(&[0xab, 0x01], "x");
    let digest = stretch(&[0xab, 0x01], "x", ROUNDS);
    assert_eq!(h, format!("sha256$ab01${}", hex(&digest)));
    assert_eq!(h.len(), 7 + 4 + 1 + 64);
}

#[test]
fn right_password_matches_and_others_do_not() {
    let h = hash_with_salt(&[9, 8, 7, 6], "잠금 비밀번호");
    assert!(verify_password("잠금 비밀번호", &h));
    assert!(!verify_password("잠금 비밀번호 ", &h));
    assert!(!verify_password("", &h));
    let empty_salt = hash_with_salt(&[], "pw");
    assert!(verify_password("pw", &empty_salt));
    assert!(!verify_password("pW", &empty_salt));
}

#[test]
fn malformed_hashes_match_nothing() {
    let h = hash_with_salt(&[0x5a], "pw");
    assert!(!verify_password("pw", ""));
    assert!(!verify_password("pw", &h.replacen("sha256", "sha512", 1)));
    assert!(!verify_password("pw", &h.to_uppercase()));
    assert!(!verify_password("pw", &h[..h.len() - 2]));
    assert!(!verify_password("pw", &format!("{h}0")));
    assert!(!verify_password("pw", &h.replacen("$5a$", "$5g$", 1)));
    assert!(!verify_password("pw", &h.replacen("$5a$", "$5$", 1)));
    assert!(!verify_password("pw", "hash:pw"));
}
