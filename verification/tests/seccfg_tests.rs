//! The seccfg record: parsing, serialization, lock-state rewriting.
use penumbra::seccfg::{apply_lock_state, LockFlag, SecCfgV4, SecCfgV4Algo};
use sha2::Digest;

fn sample() -> Vec<u8> {
    let mut s = SecCfgV4::new();
    s.lock_state = 1;
    s.critical_lock_state = 1;
    s.sboot_runtime = 2;
    s.create()
}

#[test]
fn new_record_fields() {
    let s = SecCfgV4::new();
    assert_eq!(s.seccfg_ver, 4);
    assert_eq!(s.seccfg_size, 20);
    assert_eq!(s.lock_state, 0);
    assert_eq!(s.critical_lock_state, 0);
    assert!(s.get_algo().is_none());
    assert_eq!(s.get_encrypted_hash(), Vec::<u8>::new());
}

#[test]
fn create_is_0x200_aligned_and_framed() {
    let bytes = sample();
    assert_eq!(bytes.len() % 0x200, 0);
    assert_eq!(bytes.len(), 0x200);
    assert_eq!(&bytes[0..4], &0x4D4D4D4Du32.to_le_bytes());
    assert_eq!(&bytes[24..28], &0x45454545u32.to_le_bytes());
    // Zero padding after header and digest.
    assert!(bytes[60..].iter().all(|&b| b == 0));
}

#[test]
fn parse_of_created_record_round_trips() {
    let mut s = SecCfgV4::new();
    s.lock_state = 3;
    s.critical_lock_state = 0;
    s.sboot_runtime = 7;
    let bytes = s.create();
    let back = SecCfgV4::parse_header(&bytes).unwrap();
    assert_eq!(back.seccfg_ver, 4);
    assert_eq!(back.seccfg_size, 20);
    assert_eq!(back.lock_state, 3);
    assert_eq!(back.critical_lock_state, 0);
    assert_eq!(back.sboot_runtime, 7);
    // The digest field reads back exactly as written.
    assert_eq!(back.get_encrypted_hash(), s.get_hash());
    // Writing the parsed record reproduces the same bytes.
    assert_eq!(back.create(), bytes);
}

#[test]
fn parse_rejects_bad_magic_and_short_data() {
    let mut bytes = sample();
    bytes[0] = 0;
    assert!(SecCfgV4::parse_header(&bytes).is_err());
    let mut bytes = sample();
    bytes[24] = 0;
    assert!(SecCfgV4::parse_header(&bytes).is_err());
    assert!(SecCfgV4::parse_header(&sample()[..32]).is_err());
}

#[test]
fn lock_state_values() {
    let mut s = SecCfgV4::new();
    s.set_lock_state(LockFlag::Lock);
    assert_eq!(s.lock_state, 4);
    assert_eq!(s.critical_lock_state, 1);
    s.set_lock_state(LockFlag::Unlock);
    assert_eq!(s.lock_state, 3);
    assert_eq!(s.critical_lock_state, 0);
}

#[test]
fn algo_and_hash_accessors() {
    let mut s = SecCfgV4::new();
    s.set_algo(SecCfgV4Algo::HWv3);
    assert_eq!(s.get_algo(), Some(SecCfgV4Algo::HWv3));
    s.set_encrypted_hash(vec![9u8; 32]);
    assert_eq!(s.get_encrypted_hash(), vec![9u8; 32]);
    assert_eq!(s.get_hash().len(), 32);
}

#[test]
fn unlock_rewrites_the_record() {
    // The unlock flow yields a 0x200-aligned buffer whose header decodes as
    // version 4, lock state 3, critical lock state 0.
    let out = apply_lock_state(&sample(), LockFlag::Unlock).unwrap();
    assert_eq!(out.len() % 0x200, 0);
    let parsed = SecCfgV4::parse_header(&out).unwrap();
    assert_eq!(parsed.seccfg_ver, 4);
    assert_eq!(parsed.lock_state, 3);
    assert_eq!(parsed.critical_lock_state, 0);
    // And the digest was refreshed over the updated header.
    let mut expect = SecCfgV4::new();
    expect.lock_state = 3;
    expect.sboot_runtime = 2;
    assert_eq!(parsed.get_encrypted_hash(), expect.get_hash());
}

#[test]
fn lock_rewrites_the_record() {
    let out = apply_lock_state(&sample(), LockFlag::Lock).unwrap();
    let parsed = SecCfgV4::parse_header(&out).unwrap();
    assert_eq!(parsed.lock_state, 4);
    assert_eq!(parsed.critical_lock_state, 1);
}

#[test]
fn digest_covers_the_header() {
    // The record's digest is the SHA-256 of its 28 header bytes: it
    // changes with the header and is never the header itself.
    let mut a = SecCfgV4::new();
    let mut b = SecCfgV4::new();
    b.lock_state = 3;
    let ha = a.get_hash();
    let hb = b.get_hash();
    assert_ne!(ha, hb);
    assert_ne!(ha, a.header_bytes()[..28].to_vec());
    let expected = sha2::Sha256::digest(&a.header_bytes()).to_vec();
    assert_eq!(ha, expected);
    a.lock_state = 3;
    assert_eq!(a.get_hash(), hb);
}

#[test]
fn apply_lock_state_rejects_garbage() {
    assert!(apply_lock_state(&[0u8; 0x200], LockFlag::Unlock).is_err());
}
