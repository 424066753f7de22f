use veil::time::{Duration, Instant};
use veil::transfer::{
    fragment_payload, fragment_with_id, AddChunkResult, ChunkManifestPayload, ChunkPayload,
    ChunkReassembler, CHUNK_REASSEMBLY_TTL_SECS, MANIFEST_SIZE, MAX_CHUNK_PAYLOAD,
    MAX_REASSEMBLY_BYTES, MAX_TRANSFERS_CONCURRENT, MAX_TRANSFER_CHUNKS,
};

fn at(secs: u64) -> Instant {
    Instant::at(Duration::from_secs(secs))
}

#[test]
fn fragment_3mib_gives_correct_manifest() {
    let data: Vec<u8> = (0u8..=255).cycle().take(3 * 1024 * 1024).collect();
    let content_id = [0x42u8; 32];
    let (manifest, chunks) = fragment_payload(&data, content_id).expect("should fragment");

    let expected_count = data.len().div_ceil(MAX_CHUNK_PAYLOAD);
    assert_eq!(chunks.len(), expected_count, "chunk count mismatch");
    assert_eq!(manifest.payload.chunk_count as usize, expected_count);
    assert_eq!(manifest.payload.total_size as usize, data.len());
    assert_eq!(manifest.payload.content_id, content_id);
    assert_eq!(manifest.payload.max_chunk_bytes, MAX_CHUNK_PAYLOAD as u32);

    for (i, chunk) in chunks.iter().enumerate() {
        if i + 1 < chunks.len() {
            assert_eq!(chunk.len(), MAX_CHUNK_PAYLOAD, "chunk {i} wrong size");
        } else {
            assert!(chunk.len() <= MAX_CHUNK_PAYLOAD);
        }
    }

    let actual_hash: [u8; 32] = blake3::hash(&data).into();
    assert_eq!(
        manifest.payload.content_hash, actual_hash,
        "content_hash mismatch"
    );
}

#[test]
fn reassemble_48_chunks_verifies_hash() {
    const CHUNK_COUNT: usize = 48;
    let data: Vec<u8> = (0u8..=255)
        .cycle()
        .take(CHUNK_COUNT * MAX_CHUNK_PAYLOAD)
        .collect();
    let content_id = [0xBBu8; 32];
    let (manifest_struct, chunks) = fragment_payload(&data, content_id).unwrap();
    assert_eq!(chunks.len(), CHUNK_COUNT);

    let mut r = ChunkReassembler::new();
    assert!(r.register_manifest(&manifest_struct.payload, at(0)));

    let transfer_id = manifest_struct.payload.transfer_id;
    for (i, chunk_data) in chunks.iter().enumerate() {
        let result = r.add_chunk(&transfer_id, i as u32, chunk_data.clone());
        if i + 1 < CHUNK_COUNT {
            assert!(
                matches!(result, AddChunkResult::Pending),
                "chunk {i} should be Pending"
            );
        } else {
            match result {
                AddChunkResult::Complete {
                    payload,
                    content_id: cid,
                } => {
                    assert_eq!(cid, content_id);
                    assert_eq!(payload, data, "reassembled payload mismatch");
                }
                other => panic!("expected Complete on last chunk, got {other:?}"),
            }
        }
    }
}

#[test]
fn evict_stale_does_not_evict_fresh() {
    let data = vec![1u8; 100];
    let content_id = [0u8; 32];
    let (manifest_struct, _) = fragment_payload(&data, content_id).unwrap();
    let mut r = ChunkReassembler::new();
    r.register_manifest(&manifest_struct.payload, at(0));
    let evicted = r.evict_stale(at(0));
    assert!(evicted.is_empty(), "fresh transfer must not be evicted");
}

#[test]
fn memory_cap_rejects_chunk() {
    let big_data: Vec<u8> = vec![0u8; MAX_REASSEMBLY_BYTES];
    let content_id = [0x11u8; 32];

    let usable = MAX_CHUNK_PAYLOAD * 2;
    let data2 = vec![0u8; usable];
    let (m2, _) = fragment_payload(&data2, content_id).unwrap();
    let mut r = ChunkReassembler::new();
    r.register_manifest(&m2.payload, at(0));

    let oversized = vec![0u8; MAX_REASSEMBLY_BYTES + 1];
    let result = r.add_chunk(&m2.payload.transfer_id, 0, oversized);
    assert!(matches!(result, AddChunkResult::MemoryCapExceeded));
    let _ = big_data;
}

#[test]
fn chunk_manifest_roundtrip() {
    let m = ChunkManifestPayload {
        transfer_id: [1u8; 16],
        content_id: [2u8; 32],
        total_size: 1_000_000,
        chunk_count: 16,
        max_chunk_bytes: MAX_CHUNK_PAYLOAD as u32,
        content_hash: [3u8; 32],
    };
    let enc = m.encode();
    let dec = ChunkManifestPayload::decode(&enc).unwrap();
    assert_eq!(dec, m);
}

#[test]
fn chunk_payload_roundtrip() {
    let p = ChunkPayload {
        transfer_id: [7u8; 16],
        chunk_index: 42,
        data: b"hello chunking".to_vec(),
    };
    let enc = p.encode();
    let dec = ChunkPayload::decode(&enc).unwrap();
    assert_eq!(dec, p);
}

#[test]
fn manifests_of_the_wrong_length_are_refused() {
    assert!(ChunkManifestPayload::decode(&[0u8; MANIFEST_SIZE - 1]).is_none());
    assert!(ChunkManifestPayload::decode(&[0u8; MANIFEST_SIZE]).is_some());
}

#[test]
fn a_payload_of_too_many_chunks_is_refused() {
    let data = vec![0u8; MAX_CHUNK_PAYLOAD * MAX_TRANSFER_CHUNKS as usize + 1];
    assert!(fragment_payload(&data, [0; 32]).is_none());
}

#[test]
fn two_transfers_of_one_payload_have_different_ids() {
    let data = vec![5u8; 10];
    let (a, _) = fragment_payload(&data, [0; 32]).unwrap();
    let (b, _) = fragment_payload(&data, [0; 32]).unwrap();
    assert_ne!(a.payload.transfer_id, b.payload.transfer_id);
}

fn small(id: u8) -> (ChunkManifestPayload, Vec<Vec<u8>>) {
    let data = vec![id; MAX_CHUNK_PAYLOAD + 1];
    let (m, chunks) = fragment_with_id(&data, [id; 32], [id; 16]).unwrap();
    (m.payload, chunks)
}

#[test]
fn unknown_transfers_and_chunks_are_told_apart() {
    let (m, chunks) = small(1);
    let mut r = ChunkReassembler::default();
    assert!(matches!(
        r.add_chunk(&m.transfer_id, 0, chunks[0].clone()),
        AddChunkResult::UnknownTransfer
    ));
    assert!(r.register_manifest(&m, at(0)));
    assert!(matches!(
        r.add_chunk(&m.transfer_id, 2, chunks[0].clone()),
        AddChunkResult::ChunkIndexOutOfRange
    ));
    assert_eq!(r.transfer_count(), 1);
}

#[test]
fn a_payload_that_does_not_hash_to_its_manifest_is_refused() {
    let (m, chunks) = small(2);
    let mut r = ChunkReassembler::new();
    assert!(r.register_manifest(&m, at(0)));
    let mut wrong = chunks[0].clone();
    wrong[0] ^= 1;
    assert!(matches!(r.add_chunk(&m.transfer_id, 0, wrong), AddChunkResult::Pending));
    assert!(matches!(
        r.add_chunk(&m.transfer_id, 1, chunks[1].clone()),
        AddChunkResult::HashMismatch
    ));
}

#[test]
fn chunks_may_come_in_any_order_and_twice() {
    let (m, chunks) = small(3);
    let mut r = ChunkReassembler::new();
    assert!(r.register_manifest(&m, at(0)));
    assert!(matches!(r.add_chunk(&m.transfer_id, 1, chunks[1].clone()), AddChunkResult::Pending));
    assert!(matches!(r.add_chunk(&m.transfer_id, 1, chunks[1].clone()), AddChunkResult::Pending));
    assert_eq!(r.buffered_bytes(), 1);
    match r.add_chunk(&m.transfer_id, 0, chunks[0].clone()) {
        AddChunkResult::Complete { payload, .. } => {
            assert_eq!(payload, vec![3u8; MAX_CHUNK_PAYLOAD + 1]);
        }
        other => panic!("expected Complete, got {other:?}"),
    }
    assert_eq!(r.transfer_count(), 0);
    assert_eq!(r.buffered_bytes(), 0);
    assert!(matches!(
        r.add_chunk(&m.transfer_id, 1, chunks[1].clone()),
        AddChunkResult::UnknownTransfer
    ));
}

#[test]
fn what_is_buffered_is_what_the_transfers_hold() {
    let (a, of_a) = small(5);
    let (b, of_b) = small(6);
    let mut r = ChunkReassembler::new();
    assert!(r.register_manifest(&a, at(0)));
    assert!(r.register_manifest(&b, at(0)));
    r.add_chunk(&b.transfer_id, 1, of_b[1].clone());
    r.add_chunk(&a.transfer_id, 0, of_a[0].clone());
    assert_eq!(r.buffered_bytes(), 1 + MAX_CHUNK_PAYLOAD);
    r.add_chunk(&a.transfer_id, 1, of_a[1].clone());
    assert_eq!(r.buffered_bytes(), 1);
}

#[test]
fn stale_transfers_go_and_free_what_they_held() {
    let (m, chunks) = small(4);
    let mut r = ChunkReassembler::new();
    assert!(r.register_manifest(&m, at(0)));
    r.add_chunk(&m.transfer_id, 0, chunks[0].clone());
    assert_eq!(r.buffered_bytes(), MAX_CHUNK_PAYLOAD);
    assert!(r.evict_stale(at(CHUNK_REASSEMBLY_TTL_SECS - 1)).is_empty());
    assert_eq!(r.evict_stale(at(CHUNK_REASSEMBLY_TTL_SECS)), vec![[4u8; 32]]);
    assert_eq!(r.transfer_count(), 0);
    assert_eq!(r.buffered_bytes(), 0);
}

#[test]
fn only_so_many_transfers_at_once() {
    let mut r = ChunkReassembler::new();
    for i in 0..MAX_TRANSFERS_CONCURRENT {
        let mut id = [0u8; 16];
        id[0] = (i % 256) as u8;
        id[1] = (i / 256) as u8;
        let (m, _) = fragment_with_id(&[1, 2, 3], [0; 32], id).unwrap();
        assert!(r.register_manifest(&m.payload, at(0)));
    }
    let (m, _) = fragment_with_id(&[1, 2, 3], [0; 32], [0xff; 16]).unwrap();
    assert!(!r.register_manifest(&m.payload, at(0)));
}
