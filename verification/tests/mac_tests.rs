//! Keyed MAC composition: key validation, tag computation, constant-time
//! verification.

use digest::dev::FoldMacCore;
use digest::mac::{compute_mac, finalize_ct, verify_mac, CtOutput, KeyInit};
use digest::wrapper::CoreWrapper;
use digest::{FixedOutput, InvalidLength, MacError, Update};

type Mac = CoreWrapper<FoldMacCore>;

fn keyed(key: &[u8], msg: &[u8]) -> Mac {
    let mut m = Mac::new_from_slice(key).unwrap();
    m.update(msg);
    m
}

/// Reference model of the example keyed digest.
fn model_tag(key: &[u8], msg: &[u8]) -> Vec<u8> {
    let mut a: u64 = 0;
    let pad = 64 - msg.len() % 64;
    for &b in key.iter().chain(msg.iter()).chain(std::iter::repeat(&0u8).take(pad)) {
        a = (a * 31 + b as u64) % 0x1_0000_0000;
    }
    vec![
        (a % 256) as u8,
        ((a / 256) % 256) as u8,
        ((a / 65536) % 256) as u8,
        ((a / 16777216) % 256) as u8,
    ]
}

#[test]
fn key_length_is_validated() {
    assert!(matches!(Mac::new_from_slice(&[]), Err(InvalidLength)));
    assert!(matches!(Mac::new_from_slice(&[0u8; 65]), Err(InvalidLength)));
    assert!(Mac::new_from_slice(&[0u8; 1]).is_ok());
    assert!(Mac::new_from_slice(&[0u8; 64]).is_ok());
}

#[test]
fn tag_matches_model() {
    let key = b"a shared secret";
    let msg = b"the message to authenticate";
    let m = keyed(key, msg);
    assert_eq!(m.finalize_fixed(), model_tag(key, msg));
}

#[test]
fn verify_succeeds_on_matching_tag() {
    let key = b"key bytes";
    let msg = b"hello world";
    let tag = keyed(key, msg).finalize_fixed();
    assert_eq!(verify_mac(keyed(key, msg), &tag), Ok(()));
}

#[test]
fn verify_fails_on_any_flipped_byte() {
    let key = b"key bytes";
    let msg = b"hello world";
    let tag = keyed(key, msg).finalize_fixed();
    for i in 0..tag.len() {
        let mut bad = tag.clone();
        bad[i] ^= 0x01;
        assert_eq!(verify_mac(keyed(key, msg), &bad), Err(MacError));
    }
}

#[test]
fn verify_fails_on_wrong_length_tag() {
    let key = b"key bytes";
    let msg = b"hello world";
    let tag = keyed(key, msg).finalize_fixed();
    assert_eq!(verify_mac(keyed(key, msg), &tag[..3]), Err(MacError));
    let mut long = tag.clone();
    long.push(0);
    assert_eq!(verify_mac(keyed(key, msg), &long), Err(MacError));
}

#[test]
fn verify_fails_under_a_different_key() {
    let msg = b"same message";
    let tag = keyed(b"key one", msg).finalize_fixed();
    assert_eq!(verify_mac(keyed(b"key two!", msg), &tag), Err(MacError));
}

#[test]
fn ct_output_equality() {
    let key = b"k";
    let msg = b"m";
    let t1 = finalize_ct(keyed(key, msg));
    let t2 = finalize_ct(keyed(key, msg));
    let t3 = finalize_ct(keyed(key, b"other"));
    assert!(t1.ct_eq(&t2));
    assert!(!t1.ct_eq(&t3));
    let manual = CtOutput::new(model_tag(key, msg));
    assert!(t1.ct_eq(&manual));
}

#[test]
fn compute_mac_oneshot_matches_incremental() {
    let key = b"shared";
    let msg = b"payload bytes";
    let t = compute_mac::<Mac>(key, msg).unwrap();
    let expected = CtOutput::new(keyed(key, msg).finalize_fixed());
    assert!(t.ct_eq(&expected));
    assert!(matches!(compute_mac::<Mac>(&[], msg), Err(InvalidLength)));
}

#[test]
fn mac_streaming_invariant() {
    let key = b"stream key";
    let msg: Vec<u8> = (0..150).map(|i| i as u8).collect();
    let whole = keyed(key, &msg).finalize_fixed();
    let mut m = Mac::new_from_slice(key).unwrap();
    m.update(&msg[..70]);
    m.update(&msg[70..71]);
    m.update(&msg[71..]);
    assert_eq!(m.finalize_fixed(), whole);
}
