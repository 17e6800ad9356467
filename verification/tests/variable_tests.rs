//! Runtime-variable output size through `RtVariableCoreWrapper`.

use digest::dev::FoldVarCore;
use digest::rt_variable::{digest_variable, RtVariableCoreWrapper};
use digest::{InvalidOutputSize, Update, VariableOutput};

type VarHasher = RtVariableCoreWrapper<FoldVarCore>;

/// Reference model of the example variable-output digest.
fn model_var(out_size: usize, msg: &[u8]) -> Vec<u8> {
    let mut a: u64 = out_size as u64;
    let pad = 64 - msg.len() % 64;
    for &b in msg.iter().chain(std::iter::repeat(&0u8).take(pad)) {
        a = (a * 31 + b as u64) % 0x1_0000_0000;
    }
    (0..out_size).map(|i| ((a + 7 * i as u64) % 256) as u8).collect()
}

#[test]
fn output_size_is_validated_at_construction() {
    assert!(matches!(VarHasher::new(0), Err(InvalidOutputSize)));
    assert!(matches!(
        VarHasher::new(VarHasher::max_output_size() + 1),
        Err(InvalidOutputSize)
    ));
    assert!(VarHasher::new(1).is_ok());
    assert!(VarHasher::new(VarHasher::max_output_size()).is_ok());
}

#[test]
fn finalize_writes_exactly_the_chosen_size() {
    for k in [1usize, 7, 32] {
        let mut h = VarHasher::new(k).unwrap();
        assert_eq!(h.output_size(), k);
        h.update(b"variable output input");
        let mut out = Vec::new();
        h.finalize_variable(&mut out);
        assert_eq!(out.len(), k);
        assert_eq!(out, model_var(k, b"variable output input"));
    }
}

#[test]
fn output_size_gives_domain_separation() {
    // The chosen size is folded into the initial state: prefixes do not
    // coincide across sizes.
    let msg = b"same input";
    let mut out7 = Vec::new();
    let mut out8 = Vec::new();
    let mut h7 = VarHasher::new(7).unwrap();
    h7.update(msg);
    h7.finalize_variable(&mut out7);
    let mut h8 = VarHasher::new(8).unwrap();
    h8.update(msg);
    h8.finalize_variable(&mut out8);
    assert_ne!(out7, out8[..7].to_vec());
}

#[test]
fn reset_preserves_the_output_size_and_reproduces() {
    let msg: Vec<u8> = (0..130).map(|i| (i * 3) as u8).collect();
    let mut h = VarHasher::new(9).unwrap();
    let mut first = Vec::new();
    let mut second = Vec::new();
    h.update(&msg);
    h.finalize_variable_reset(&mut first);
    assert_eq!(h.output_size(), 9);
    h.update(&msg);
    h.finalize_variable_reset(&mut second);
    assert_eq!(first, second);
    assert_eq!(first.len(), 9);
    assert_eq!(first, model_var(9, &msg));
}

#[test]
fn digest_variable_oneshot() {
    let msg = b"one-shot variable digest";
    let mut out = Vec::new();
    assert_eq!(digest_variable::<VarHasher>(msg, 12, &mut out), Ok(()));
    assert_eq!(out, model_var(12, msg));

    let mut untouched = vec![9u8; 3];
    assert_eq!(
        digest_variable::<VarHasher>(msg, 0, &mut untouched),
        Err(InvalidOutputSize)
    );
    assert_eq!(
        digest_variable::<VarHasher>(msg, 33, &mut untouched),
        Err(InvalidOutputSize)
    );
    assert_eq!(untouched, vec![9u8; 3]);
}

#[test]
fn variable_streaming_invariant() {
    let msg: Vec<u8> = (0..100).map(|i| (i * 11) as u8).collect();
    let mut whole = Vec::new();
    let mut h = VarHasher::new(16).unwrap();
    h.update(&msg);
    h.finalize_variable(&mut whole);

    let mut chunked = Vec::new();
    let mut h2 = VarHasher::new(16).unwrap();
    h2.update(&msg[..63]);
    h2.update(&msg[63..64]);
    h2.update(&msg[64..]);
    h2.finalize_variable(&mut chunked);
    assert_eq!(whole, chunked);
}
