//! Fixed-output hashing through `CoreWrapper` over the example core.

use digest::core_api::AlgorithmName;
use digest::dev::FoldHashCore;
use digest::wrapper::CoreWrapper;
use digest::{FixedOutput, FixedOutputReset, Update};

/// Reference model of the example fold, kept independent of the library.
fn fold(acc: u64, data: &[u8]) -> u64 {
    let mut a = acc;
    for &b in data {
        a = (a * 31 + b as u64) % 0x1_0000_0000;
    }
    a
}

fn zero_padded(input: &[u8], bs: usize) -> Vec<u8> {
    let mut v = input.to_vec();
    let k = bs - input.len() % bs;
    v.resize(input.len() + k, 0u8);
    v
}

fn out4(a: u64) -> Vec<u8> {
    vec![
        (a % 256) as u8,
        ((a / 256) % 256) as u8,
        ((a / 65536) % 256) as u8,
        ((a / 16777216) % 256) as u8,
    ]
}

fn expected_digest(init: &[u8], input: &[u8]) -> Vec<u8> {
    out4(fold(fold(0, init), &zero_padded(input, 64)))
}

fn sample_input(n: usize) -> Vec<u8> {
    (0..n).map(|i| (i * 13 + 7) as u8).collect()
}

#[test]
fn empty_input_digest_is_defined_value() {
    // Empty input zero-pads to one all-zero block, which folds to state
    // zero: the defined empty-input digest is four zero bytes.
    let out = CoreWrapper::<FoldHashCore>::digest(FoldHashCore::new(), &[]);
    assert_eq!(out, vec![0u8, 0, 0, 0]);
    assert_eq!(out, expected_digest(&[], &[]));
}

#[test]
fn oneshot_matches_model() {
    let input = sample_input(200);
    let out = CoreWrapper::<FoldHashCore>::digest(FoldHashCore::new(), &input);
    assert_eq!(out, expected_digest(&[], &input));
}

#[test]
fn oneshot_equals_new_update_finalize() {
    let input = sample_input(129);
    let oneshot = CoreWrapper::<FoldHashCore>::digest(FoldHashCore::new(), &input);
    let mut h = CoreWrapper::from_core(FoldHashCore::new());
    h.update(&input);
    let incremental = h.finalize_fixed();
    assert_eq!(oneshot, incremental);
}

#[test]
fn streaming_split_invariant() {
    let input = sample_input(200);
    let whole = CoreWrapper::<FoldHashCore>::digest(FoldHashCore::new(), &input);
    // Splits exercising: tiny chunk, chunk completing a block, chunk
    // spanning blocks, empty chunk.
    for split in [vec![3, 64, 83, 0, 50], vec![1, 1, 1, 197], vec![64, 64, 64, 8], vec![200]] {
        let mut h = CoreWrapper::from_core(FoldHashCore::new());
        let mut at = 0usize;
        for len in split {
            h.update(&input[at..at + len]);
            at += len;
        }
        assert_eq!(at, input.len());
        assert_eq!(h.finalize_fixed(), whole);
    }
}

#[test]
fn fixed_output_is_exactly_output_size() {
    let out = CoreWrapper::<FoldHashCore>::digest(FoldHashCore::new(), &sample_input(77));
    assert_eq!(out.len(), 4);
    assert_eq!(CoreWrapper::<FoldHashCore>::output_size(), 4);
}

#[test]
fn finalize_into_writes_digest() {
    let input = sample_input(65);
    let mut h = CoreWrapper::from_core(FoldHashCore::new());
    h.update(&input);
    let mut out = Vec::new();
    h.finalize_into(&mut out);
    assert_eq!(out, expected_digest(&[], &input));
}

#[test]
fn finalize_reset_twice_reproduces_result() {
    let input = sample_input(100);
    let mut h = CoreWrapper::from_core(FoldHashCore::new());
    h.update(&input);
    let first = h.finalize_fixed_reset();
    h.update(&input);
    let second = h.finalize_fixed_reset();
    assert_eq!(first, second);
    assert_eq!(first, expected_digest(&[], &input));
}

#[test]
fn finalize_into_reset_twice_reproduces_result() {
    let input = sample_input(70);
    let mut h = CoreWrapper::from_core(FoldHashCore::new());
    let mut first = Vec::new();
    let mut second = Vec::new();
    h.update(&input);
    h.finalize_into_reset(&mut first);
    h.update(&input);
    h.finalize_into_reset(&mut second);
    assert_eq!(first, second);
    assert_eq!(first.len(), 4);
}

#[test]
fn reset_discards_absorbed_input() {
    let mut h = CoreWrapper::from_core(FoldHashCore::new());
    h.update(&sample_input(50));
    h.reset();
    let out = h.finalize_fixed();
    assert_eq!(out, expected_digest(&[], &[]));
}

#[test]
fn wrapper_reports_the_core_algorithm_name() {
    assert_eq!(<CoreWrapper<FoldHashCore>>::algorithm_name(), "FoldHash");
}

#[test]
fn block_aligned_and_one_over_inputs_differ_from_model_only_by_padding() {
    let exactly_one_block = sample_input(64);
    let one_over = sample_input(65);
    let a = CoreWrapper::<FoldHashCore>::digest(FoldHashCore::new(), &exactly_one_block);
    let b = CoreWrapper::<FoldHashCore>::digest(FoldHashCore::new(), &one_over);
    assert_eq!(a, expected_digest(&[], &exactly_one_block));
    assert_eq!(b, expected_digest(&[], &one_over));
}
