//! Cursor, serialization surface and block-dispatch behaviour of
//! `BlockBuffer`.

use digest::buffer::BlockBuffer;
use digest::dev::FoldHashCore;
use digest::InvalidBufferLength;

#[test]
fn set_pos_get_pos_round_trip_for_all_valid_positions() {
    let mut b = BlockBuffer::new(64);
    for p in 0..64 {
        assert_eq!(b.set_pos(p), Ok(()));
        assert_eq!(b.get_pos(), p);
    }
}

#[test]
fn set_pos_at_block_size_fails() {
    let mut b = BlockBuffer::new(64);
    b.set_pos(5).unwrap();
    assert_eq!(b.set_pos(64), Err(InvalidBufferLength));
    assert_eq!(b.set_pos(65), Err(InvalidBufferLength));
    // the failed calls left the buffer untouched
    assert_eq!(b.get_pos(), 5);
}

#[test]
fn restore_round_trip() {
    let mut core = FoldHashCore::new();
    let mut b = BlockBuffer::new(64);
    b.ingest(&[9u8; 10], &mut core);
    let raw = b.raw_block();
    let pos = b.get_pos();
    assert_eq!(pos, 10);

    let mut fresh = BlockBuffer::new(64);
    assert_eq!(fresh.restore(&raw, pos), Ok(()));
    assert_eq!(fresh.get_pos(), 10);
    assert_eq!(fresh.raw_block(), raw);
}

#[test]
fn restore_with_wrong_length_fails() {
    let mut b = BlockBuffer::new(64);
    b.set_pos(3).unwrap();
    let short = vec![0u8; 63];
    let long = vec![0u8; 65];
    assert_eq!(b.restore(&short, 0), Err(InvalidBufferLength));
    assert_eq!(b.restore(&long, 0), Err(InvalidBufferLength));
    let right = vec![0u8; 64];
    assert_eq!(b.restore(&right, 64), Err(InvalidBufferLength));
    // failures left the buffer untouched
    assert_eq!(b.get_pos(), 3);
}

#[test]
fn exact_block_is_dispatched_and_nothing_pends() {
    let mut core = FoldHashCore::new();
    let mut b = BlockBuffer::new(64);
    b.ingest(&[1u8; 64], &mut core);
    assert_eq!(b.get_pos(), 0);
}

#[test]
fn one_byte_over_a_block_leaves_one_pending_byte() {
    let mut core = FoldHashCore::new();
    let mut b = BlockBuffer::new(64);
    b.ingest(&[1u8; 65], &mut core);
    assert_eq!(b.get_pos(), 1);
}

#[test]
fn pending_accumulates_until_a_block_completes() {
    let mut core = FoldHashCore::new();
    let mut b = BlockBuffer::new(64);
    b.ingest(&[1u8; 30], &mut core);
    assert_eq!(b.get_pos(), 30);
    b.ingest(&[2u8; 30], &mut core);
    assert_eq!(b.get_pos(), 60);
    b.ingest(&[3u8; 10], &mut core);
    // 60 + 10 completes one block with 6 bytes left over
    assert_eq!(b.get_pos(), 6);
    b.ingest(&[], &mut core);
    assert_eq!(b.get_pos(), 6);
}

#[test]
fn reset_empties_the_pending_block() {
    let mut core = FoldHashCore::new();
    let mut b = BlockBuffer::new(64);
    b.ingest(&[7u8; 12], &mut core);
    b.reset();
    assert_eq!(b.get_pos(), 0);
}
