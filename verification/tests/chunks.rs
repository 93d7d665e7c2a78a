//! The chunked transfer sub-protocol: plan derivation and in-order
//! reassembly with violation detection.

use wascc_codec::blobstore::{total_chunks, ChunkReceiver, FileChunk, Transfer};
use wascc_codec::error::ChunkError;

fn chunk(seq: u64, len: usize) -> FileChunk {
    FileChunk {
        sequence_no: seq,
        container: "container".to_string(),
        id: "blob".to_string(),
        total_bytes: 53400,
        chunk_size: 1024,
        chunk_bytes: vec![0xab; len],
    }
}

#[test]
fn both_sides_derive_the_same_plan() {
    assert_eq!(total_chunks(53400, 1024), Some(53));
    assert_eq!(total_chunks(53248, 1024), Some(52));
    assert_eq!(total_chunks(0, 1024), Some(0));
    assert_eq!(total_chunks(1, 1024), Some(1));
    assert_eq!(total_chunks(1024, 1024), Some(1));
    assert_eq!(total_chunks(10, 0), None);
    let t = Transfer::plan("blob".to_string(), "container".to_string(), 1024, 53400).unwrap();
    assert_eq!(t.total_chunks, 53);
}

#[test]
fn in_order_sequence_reaches_exactly_the_total_and_completes() {
    // 52 full chunks of 1024 bytes, then one final partial chunk.
    let mut rx = ChunkReceiver::new(53400);
    for seq in 0..52u64 {
        let done = rx.receive(&chunk(seq, 1024)).unwrap();
        assert!(!done);
        assert!(!rx.is_complete());
    }
    assert_eq!(rx.received_bytes, 52 * 1024);
    let done = rx.receive(&chunk(52, 53400 - 52 * 1024)).unwrap();
    assert!(done);
    assert!(rx.is_complete());
    assert_eq!(rx.received_bytes, 53400);
}

#[test]
fn duplicate_sequence_is_a_protocol_violation() {
    let mut rx = ChunkReceiver::new(53400);
    for seq in 0..6u64 {
        rx.receive(&chunk(seq, 1024)).unwrap();
    }
    assert_eq!(rx.receive(&chunk(5, 1024)), Err(ChunkError::Duplicate));
    // The receiver is left untouched and still accepts the right chunk.
    assert_eq!(rx.received_bytes, 6 * 1024);
    assert!(rx.receive(&chunk(6, 1024)).is_ok());
}

#[test]
fn out_of_order_sequence_is_a_protocol_violation() {
    let mut rx = ChunkReceiver::new(53400);
    for seq in 0..6u64 {
        rx.receive(&chunk(seq, 1024)).unwrap();
    }
    assert_eq!(rx.receive(&chunk(7, 1024)), Err(ChunkError::OutOfOrder));
    assert_eq!(rx.next_sequence, 6);
}

#[test]
fn empty_and_oversized_chunks_are_rejected() {
    let mut rx = ChunkReceiver::new(2048);
    assert_eq!(rx.receive(&chunk(0, 0)), Err(ChunkError::Empty));
    rx.receive(&chunk(0, 1024)).unwrap();
    assert_eq!(rx.receive(&chunk(1, 2000)), Err(ChunkError::Oversized));
    assert!(rx.receive(&chunk(1, 1024)).unwrap());
}
