use agent_lib::agent::Agent;
use agent_lib::messages::{
    CompressedWireFile, CompressedWireFileChunk, PutFileChunkRequest, PutFileChunkResponse,
};
use agent_lib::registry::{ChunkIngest, TransferRegistry};

fn chunk_requests(data: Vec<u8>, chunk_size: usize) -> Vec<PutFileChunkRequest> {
    let file = CompressedWireFile {
        filename: "artifact.bin".to_string(),
        zstd_compressed_data: data,
    };
    let hash = file.blake3_hash();
    let chunks = file.into_chunks_with_size(chunk_size);
    chunks
        .into_iter()
        .map(|chunk| PutFileChunkRequest::new(hash, 0o644, "/tmp/artifact.bin".to_string(), chunk))
        .collect()
}

#[test]
fn duplicate_chunk_is_rejected_and_state_unchanged() {
    let mut agent = Agent::new().unwrap();
    let reqs = chunk_requests((0..100u32).map(|i| i as u8).collect(), 10);
    assert_eq!(reqs.len(), 10);

    let (r0, f0) = agent.put_file_chunk(reqs[0].clone(), 1);
    assert_eq!(
        r0,
        PutFileChunkResponse::Progress { chunk_id: 0, seen_chunks: 1 }
    );
    assert!(f0.is_none());

    // the same (key, chunk_id) again: Duplicate, and the seen count
    // afterwards shows the duplicate was not recorded
    let (r1, f1) = agent.put_file_chunk(reqs[0].clone(), 2);
    assert_eq!(r1, PutFileChunkResponse::Duplicate { chunk_id: 0 });
    assert!(f1.is_none());

    let (r2, _) = agent.put_file_chunk(reqs[1].clone(), 3);
    assert_eq!(
        r2,
        PutFileChunkResponse::Progress { chunk_id: 1, seen_chunks: 2 }
    );
}

#[test]
fn completion_exactly_on_last_chunk_for_all_orders() {
    // total_chunks = 3: try all 6 arrival orders; Complete comes
    // exactly on the third submission, never earlier
    let orders: [[usize; 3]; 6] = [
        [0, 1, 2],
        [0, 2, 1],
        [1, 0, 2],
        [1, 2, 0],
        [2, 0, 1],
        [2, 1, 0],
    ];
    for order in orders.iter() {
        let mut agent = Agent::new().unwrap();
        let reqs = chunk_requests((0..30u32).map(|i| (i * 7) as u8).collect(), 10);
        assert_eq!(reqs.len(), 3);
        for (step, &i) in order.iter().enumerate() {
            let (resp, file) = agent.put_file_chunk(reqs[i].clone(), step as u64);
            if step < 2 {
                assert_eq!(
                    resp,
                    PutFileChunkResponse::Progress {
                        chunk_id: i as u64,
                        seen_chunks: (step + 1) as u64
                    }
                );
                assert!(file.is_none());
            } else {
                assert_eq!(resp, PutFileChunkResponse::Complete { chunk_id: i as u64 });
                let completed = file.expect("completed transfer must hand the file back");
                assert_eq!(
                    completed.file.zstd_compressed_data,
                    (0..30u32).map(|i| (i * 7) as u8).collect::<Vec<u8>>()
                );
                assert_eq!(completed.target_path, "/tmp/artifact.bin");
                assert_eq!(completed.target_perms, 0o644);
            }
        }
    }
}

#[test]
fn twelve_mib_file_in_five_mib_chunks() {
    // 12 MiB file, 5 MiB chunk size: chunks of 5, 5 and 2 MiB;
    // submitted in the order 2, 0, 1
    let mib = 1024 * 1024;
    let data: Vec<u8> = (0..12 * mib).map(|i| (i % 253) as u8).collect();
    let reqs = chunk_requests(data.clone(), 5 * mib);
    assert_eq!(reqs.len(), 3);
    assert_eq!(reqs[0].chunk.zstd_compressed_data_chunk.len(), 5 * mib);
    assert_eq!(reqs[1].chunk.zstd_compressed_data_chunk.len(), 5 * mib);
    assert_eq!(reqs[2].chunk.zstd_compressed_data_chunk.len(), 2 * mib);

    let mut agent = Agent::new().unwrap();
    let (r, f) = agent.put_file_chunk(reqs[2].clone(), 0);
    assert_eq!(
        r,
        PutFileChunkResponse::Progress { chunk_id: 2, seen_chunks: 1 }
    );
    assert!(f.is_none());
    let (r, f) = agent.put_file_chunk(reqs[0].clone(), 1);
    assert_eq!(
        r,
        PutFileChunkResponse::Progress { chunk_id: 0, seen_chunks: 2 }
    );
    assert!(f.is_none());
    let (r, f) = agent.put_file_chunk(reqs[1].clone(), 2);
    assert_eq!(r, PutFileChunkResponse::Complete { chunk_id: 1 });
    assert_eq!(f.unwrap().file.zstd_compressed_data, data);

    // the registry entry is gone: resubmitting a chunk under the same
    // key starts a fresh transfer rather than crashing
    let (r, f) = agent.put_file_chunk(reqs[1].clone(), 3);
    assert_eq!(
        r,
        PutFileChunkResponse::Progress { chunk_id: 1, seen_chunks: 1 }
    );
    assert!(f.is_none());
}

#[test]
fn corrupted_chunk_fails_the_hash_check() {
    let mut agent = Agent::new().unwrap();
    let mut reqs = chunk_requests((0..64u32).map(|i| i as u8).collect(), 32);
    assert_eq!(reqs.len(), 2);
    // flip one bit of the second chunk's payload after hashing
    reqs[1].chunk.zstd_compressed_data_chunk[5] ^= 0x01;

    let (r, _) = agent.put_file_chunk(reqs[0].clone(), 0);
    assert_eq!(
        r,
        PutFileChunkResponse::Progress { chunk_id: 0, seen_chunks: 1 }
    );
    let (r, f) = agent.put_file_chunk(reqs[1].clone(), 1);
    assert_eq!(r, PutFileChunkResponse::Error { chunk_id: 1 });
    assert!(f.is_none());
}

#[test]
fn single_chunk_transfer_completes_immediately() {
    let mut agent = Agent::new().unwrap();
    let reqs = chunk_requests(vec![9, 9, 9], 16);
    assert_eq!(reqs.len(), 1);
    let (r, f) = agent.put_file_chunk(reqs[0].clone(), 0);
    assert_eq!(r, PutFileChunkResponse::Complete { chunk_id: 0 });
    let completed = f.unwrap();
    assert_eq!(completed.file.zstd_compressed_data, vec![9, 9, 9]);
    assert_eq!(completed.target_path, "/tmp/artifact.bin");
}

#[test]
fn destination_comes_from_the_first_received_chunk() {
    // the entry keeps the path and permissions recorded on creation;
    // later chunks cannot redirect a transfer
    let file = CompressedWireFile {
        filename: "artifact.bin".to_string(),
        zstd_compressed_data: (0..20u32).map(|i| (i * 3) as u8).collect(),
    };
    let hash = file.blake3_hash();
    let chunks = file.into_chunks_with_size(10);
    assert_eq!(chunks.len(), 2);

    let mut agent = Agent::new().unwrap();
    let (r, _) = agent.put_file_chunk(
        PutFileChunkRequest::new(hash, 0o600, "/etc/first".to_string(), chunks[1].clone()),
        0,
    );
    assert_eq!(
        r,
        PutFileChunkResponse::Progress { chunk_id: 1, seen_chunks: 1 }
    );
    let (r, f) = agent.put_file_chunk(
        PutFileChunkRequest::new(hash, 0o777, "/etc/second".to_string(), chunks[0].clone()),
        1,
    );
    assert_eq!(r, PutFileChunkResponse::Complete { chunk_id: 0 });
    let completed = f.unwrap();
    assert_eq!(completed.target_path, "/etc/first");
    assert_eq!(completed.target_perms, 0o600);
}

#[test]
fn inconsistent_totals_fail_reassembly() {
    // the first-received chunk claims a total of 2, but the chunk
    // with the lowest id claims 3: completion triggers at 2 received
    // and reassembly then refuses the set
    let file = CompressedWireFile {
        filename: "artifact.bin".to_string(),
        zstd_compressed_data: (0..20u32).map(|i| i as u8).collect(),
    };
    let hash = file.blake3_hash();
    let chunks = file.into_chunks_with_size(10);
    assert_eq!(chunks.len(), 2);
    let mut first = chunks[1].clone();
    first.num_chunks = 2;
    let mut second = chunks[0].clone();
    second.num_chunks = 3;

    let mut agent = Agent::new().unwrap();
    let (r, _) = agent.put_file_chunk(
        PutFileChunkRequest::new(hash, 0o644, "/tmp/a".to_string(), first),
        0,
    );
    assert_eq!(
        r,
        PutFileChunkResponse::Progress { chunk_id: 1, seen_chunks: 1 }
    );
    let (r, f) = agent.put_file_chunk(
        PutFileChunkRequest::new(hash, 0o644, "/tmp/a".to_string(), second),
        1,
    );
    assert_eq!(r, PutFileChunkResponse::Error { chunk_id: 0 });
    assert!(f.is_none());
}

#[test]
fn sweep_drops_only_stale_transfers() {
    let mut registry = TransferRegistry::new();
    let fresh = chunk_requests((0..40u32).map(|i| i as u8).collect(), 10);
    let stale = chunk_requests((0..40u32).map(|i| (i + 1) as u8).collect(), 10);

    let r = registry.insert_chunk(
        &stale[0].file_hash,
        &stale[0].target_path,
        stale[0].target_perms,
        100,
        stale[0].chunk.clone(),
    );
    assert!(matches!(r, ChunkIngest::Progress { seen_chunks: 1 }));
    let r = registry.insert_chunk(
        &fresh[0].file_hash,
        &fresh[0].target_path,
        fresh[0].target_perms,
        900,
        fresh[0].chunk.clone(),
    );
    assert!(matches!(r, ChunkIngest::Progress { seen_chunks: 1 }));

    // at time 1000 with a 500-tick window, only the entry updated at
    // 100 is dropped
    registry.sweep_stale(1000, 500);

    // the stale transfer restarts from scratch...
    let r = registry.insert_chunk(
        &stale[1].file_hash,
        &stale[1].target_path,
        stale[1].target_perms,
        1000,
        stale[1].chunk.clone(),
    );
    assert!(matches!(r, ChunkIngest::Progress { seen_chunks: 1 }));
    // ...while the fresh one kept its chunk
    let r = registry.insert_chunk(
        &fresh[1].file_hash,
        &fresh[1].target_path,
        fresh[1].target_perms,
        1000,
        fresh[1].chunk.clone(),
    );
    assert!(matches!(r, ChunkIngest::Progress { seen_chunks: 2 }));
}
