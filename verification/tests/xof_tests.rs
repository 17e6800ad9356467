//! Extendable-output reading through `XofReaderCoreWrapper`.

use digest::dev::FoldXofCore;
use digest::wrapper::CoreWrapper;
use digest::{ExtendableOutput, Update, XofReader};

fn reader_for(input: &[u8]) -> <CoreWrapper<FoldXofCore> as ExtendableOutput>::Reader {
    let mut h = CoreWrapper::from_core(FoldXofCore::new());
    h.update(input);
    h.finalize_xof()
}

/// Reference model of the example XOF stream.
fn model_stream(input: &[u8], n: usize) -> Vec<u8> {
    let mut a: u64 = 0;
    let bs = 136usize;
    let pad = bs - input.len() % bs;
    for &b in input.iter().chain(std::iter::repeat(&0u8).take(pad)) {
        a = (a * 31 + b as u64) % 0x1_0000_0000;
    }
    let seed = [
        (a % 256) as u8,
        ((a / 256) % 256) as u8,
        ((a / 65536) % 256) as u8,
        ((a / 16777216) % 256) as u8,
    ];
    let mut f: u64 = 0;
    for &b in seed.iter() {
        f = (f * 31 + b as u64) % 0x1_0000_0000;
    }
    (0..n).map(|g| ((f + g as u64) % 256) as u8).collect()
}

#[test]
fn reading_in_chunks_of_seven_equals_one_read() {
    // N = 1000 spans several 136-byte blocks.
    let input: Vec<u8> = (0..300).map(|i| (i % 251) as u8).collect();
    let mut whole_reader = reader_for(&input);
    let whole = whole_reader.read_vec(1000);
    assert_eq!(whole.len(), 1000);
    assert_eq!(whole, model_stream(&input, 1000));

    let mut chunked_reader = reader_for(&input);
    let mut chunked = Vec::new();
    while chunked.len() < 1000 {
        let k = 7.min(1000 - chunked.len());
        chunked.extend_from_slice(&chunked_reader.read_vec(k));
    }
    assert_eq!(chunked, whole);
}

#[test]
fn mixed_granularity_reads_equal_one_read() {
    let input = b"an extendable output function input";
    let mut one = reader_for(input);
    let whole = one.read_vec(500);

    let mut many = reader_for(input);
    let mut collected = Vec::new();
    for k in [0usize, 1, 135, 136, 137, 1, 0, 90] {
        collected.extend_from_slice(&many.read_vec(k));
    }
    assert_eq!(collected, whole);
}

#[test]
fn read_fills_caller_buffer_in_place() {
    let input = b"xyz";
    let mut r1 = reader_for(input);
    let mut buf = vec![0u8; 272];
    r1.read(&mut buf);
    let mut r2 = reader_for(input);
    assert_eq!(buf, r2.read_vec(272));
}

#[test]
fn zero_length_reads_do_not_advance() {
    let mut r = reader_for(b"abc");
    let empty = r.read_vec(0);
    assert!(empty.is_empty());
    let next = r.read_vec(10);
    let mut again = reader_for(b"abc");
    assert_eq!(next, again.read_vec(10));
}

#[test]
fn finalize_xof_reset_restores_initial_state() {
    let input = b"stream me twice";
    let mut h = CoreWrapper::from_core(FoldXofCore::new());
    h.update(input);
    let mut r1 = h.finalize_xof_reset();
    let first = r1.read_vec(64);
    h.update(input);
    let mut r2 = h.finalize_xof_reset();
    let second = r2.read_vec(64);
    assert_eq!(first, second);
}

#[test]
fn digest_xof_equals_incremental_path() {
    let input = b"one-shot extendable output";
    let mut out = vec![0u8; 300];
    CoreWrapper::<FoldXofCore>::digest_xof(FoldXofCore::new(), input, &mut out);
    let mut r = reader_for(input);
    assert_eq!(out, r.read_vec(300));
    assert_eq!(out, model_stream(input, 300));
}
