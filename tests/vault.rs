use nexus_conf::bytes::{bytes_eq, copy_bytes};
use nexus_conf::codec::{join_fields, join_size, split_fields};
use nexus_conf::sessions::{SessionRecord, SessionTable};
use nexus_conf::vault::{open, seal, seal_with, CryptoSection, VaultError};

fn section() -> CryptoSection {
    let mut sessions = SessionTable::new();
    sessions.insert(SessionRecord { id: vec![7; 32], state: b"ratchet state".to_vec() });
    CryptoSection { identity_key: Some(vec![42; 32]), sessions }
}

#[test]
fn fields_are_framed_by_length() {
    let fs = vec![vec![1u8], vec![], vec![0xAB; 300]];
    let b = join_fields(&fs);
    assert_eq!(&b[0..5], &[0, 0, 0, 1, 1]);
    assert_eq!(&b[5..9], &[0, 0, 0, 0]);
    assert_eq!(&b[9..13], &[0, 0, 1, 44]);
    assert_eq!(b.len(), 13 + 300);
    assert_eq!(join_size(&fs), Some(313));
    assert_eq!(split_fields(&b), Some(fs));
}

#[test]
fn truncated_fields_are_refused() {
    assert_eq!(split_fields(&vec![0, 0, 0, 5, 1, 2]), None);
    assert_eq!(split_fields(&vec![0, 0]), None);
    assert_eq!(split_fields(&Vec::new()), Some(Vec::new()));
}

#[test]
fn byte_helpers() {
    assert!(bytes_eq(&vec![1, 2, 3], &vec![1, 2, 3]));
    assert!(!bytes_eq(&vec![1, 2, 3], &vec![1, 2, 4]));
    assert!(!bytes_eq(&vec![1, 2], &vec![1, 2, 3]));
    assert_eq!(copy_bytes(&vec![5, 6]), vec![5, 6]);
}

#[test]
fn seal_then_open_recovers_section() {
    let c = section();
    let pass = b"test_passphrase".to_vec();
    let sealed = seal(&c, &pass).unwrap();
    assert_eq!(sealed.salt.len(), 16);
    assert_eq!(sealed.nonce.len(), 12);
    // five length prefixes, the flag, the identity key, the session's key,
    // id and state, then the tag
    assert_eq!(sealed.ciphertext.len(), 5 * 4 + 1 + 32 + 32 + 32 + 13 + 16);
    assert_eq!(sealed.check.len(), 16);
    assert_ne!(sealed.nonce, sealed.check_nonce);
    let back = open(&sealed, &pass).unwrap();
    assert_eq!(back, c);
    assert_eq!(back.sessions.len(), 1);
    let s = back.sessions.get(&vec![7; 32]).unwrap();
    assert_eq!(s.id, vec![7; 32]);
}

#[test]
fn wrong_passphrase_is_refused() {
    let sealed = seal(&section(), &b"right".to_vec()).unwrap();
    assert_eq!(open(&sealed, &b"wrong".to_vec()), Err(VaultError::AuthenticationFailed));
}

#[test]
fn tampered_ciphertext_is_integrity_failure() {
    let pass = b"p".to_vec();
    let mut sealed = seal(&section(), &pass).unwrap();
    sealed.ciphertext[0] ^= 1;
    assert_eq!(open(&sealed, &pass), Err(VaultError::IntegrityFailure));
}

#[test]
fn empty_section_round_trips_and_seals_differ() {
    let c = CryptoSection { identity_key: None, sessions: SessionTable::new() };
    let pass = b"p".to_vec();
    let a = seal(&c, &pass).unwrap();
    let b = seal(&c, &pass).unwrap();
    assert_ne!(a.salt, b.salt);
    assert_eq!(open(&a, &pass).unwrap(), c);
    assert_eq!(open(&b, &pass).unwrap(), c);
}

#[test]
fn malformed_nonce_is_integrity_failure() {
    let pass = b"p".to_vec();
    let mut sealed = seal(&section(), &pass).unwrap();
    sealed.nonce.pop();
    assert_eq!(open(&sealed, &pass), Err(VaultError::IntegrityFailure));
}

#[test]
fn repeated_session_ids_are_corrupt_state() {
    let r = SessionRecord { id: vec![3; 32], state: vec![1] };
    let c = CryptoSection { identity_key: None, sessions: SessionTable { records: vec![r.clone(), r] } };
    let pass = b"p".to_vec();
    let sealed = seal(&c, &pass).unwrap();
    assert_eq!(open(&sealed, &pass), Err(VaultError::CorruptState));
}

#[test]
fn seal_with_fixed_randomness_is_deterministic() {
    let c = section();
    let pass = b"pw".to_vec();
    let a = seal_with(&c, &pass, vec![1; 16], vec![2; 12], vec![3; 12]).unwrap();
    let b = seal_with(&c, &pass, vec![1; 16], vec![2; 12], vec![3; 12]).unwrap();
    assert_eq!(a, b);
    assert_eq!(a.salt, vec![1; 16]);
    assert_eq!(a.check_nonce, vec![2; 12]);
    assert_eq!(a.nonce, vec![3; 12]);
    assert_eq!(open(&a, &pass).unwrap(), c);
    let other_salt = seal_with(&c, &pass, vec![4; 16], vec![2; 12], vec![3; 12]).unwrap();
    assert_ne!(other_salt.ciphertext, a.ciphertext);
}

#[test]
fn short_salt_is_integrity_failure() {
    let pass = b"p".to_vec();
    let mut sealed = seal(&section(), &pass).unwrap();
    sealed.salt.truncate(4);
    assert_eq!(open(&sealed, &pass), Err(VaultError::IntegrityFailure));
}
