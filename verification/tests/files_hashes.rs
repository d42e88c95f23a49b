use agent_lib::hashing::hash_eq;
use agent_lib::messages::{
    file_name_from_path, CompressedWireFile, MessageError, PutFileRequest,
};

#[test]
fn hash_is_32_bytes_and_deterministic() {
    let file = CompressedWireFile {
        filename: "x".to_string(),
        zstd_compressed_data: vec![1, 2, 3],
    };
    let h1 = file.blake3_hash();
    let h2 = file.blake3_hash();
    assert_eq!(h1.len(), 32);
    assert_eq!(h1, h2);
    assert!(hash_eq(&h1, &h2));
}

#[test]
fn bit_flip_changes_the_hash() {
    let mut data: Vec<u8> = (0..1024u32).map(|i| (i % 256) as u8).collect();
    let before = CompressedWireFile {
        filename: "x".to_string(),
        zstd_compressed_data: data.clone(),
    }
    .blake3_hash();
    data[100] ^= 0x40;
    let after = CompressedWireFile {
        filename: "x".to_string(),
        zstd_compressed_data: data,
    }
    .blake3_hash();
    assert_ne!(before, after);
    assert!(!hash_eq(&before, &after));
    // and the digest is not the input itself
    assert_ne!(before.to_vec(), vec![0u8; 32]);
}

#[test]
fn compression_round_trips_and_really_compresses() {
    let raw: Vec<u8> = std::iter::repeat(0x41u8).take(4096).collect();
    let file = CompressedWireFile::compress_for_wire(
        &"/src/report.txt".to_string(),
        &"/opt/agent/report.txt".to_string(),
        &raw,
    )
    .unwrap();
    assert_eq!(file.filename, "report.txt");
    // a zstd frame starts with the zstd magic number
    assert_eq!(
        &file.zstd_compressed_data[0..4],
        &[0x28, 0xb5, 0x2f, 0xfd]
    );
    // repetitive input compresses well, so this is not the input
    assert!(file.zstd_compressed_data.len() < raw.len());
    let back = file.decompressed().unwrap();
    assert_eq!(back, raw);
}

#[test]
fn decompress_rejects_garbage() {
    let file = CompressedWireFile {
        filename: "x".to_string(),
        zstd_compressed_data: vec![0, 1, 2, 3, 4, 5],
    };
    assert!(file.decompressed().is_err());
}

#[test]
fn file_names_from_paths() {
    assert_eq!(
        file_name_from_path(&"/opt/agent/report.txt".to_string()).unwrap(),
        "report.txt"
    );
    assert_eq!(file_name_from_path(&"plain".to_string()).unwrap(), "plain");
    assert_eq!(
        file_name_from_path(&"dir/sub/name.bin///".to_string()).unwrap(),
        "name.bin"
    );
    // trailing `.` segments are skipped, as std path semantics do
    assert_eq!(
        file_name_from_path(&"foo.txt/.".to_string()).unwrap(),
        "foo.txt"
    );
    assert_eq!(file_name_from_path(&"a/b/.".to_string()).unwrap(), "b");
    assert_eq!(file_name_from_path(&"a/././.".to_string()).unwrap(), "a");
    // a final `.` that is part of a longer name stays
    assert_eq!(file_name_from_path(&"a/x.".to_string()).unwrap(), "x.");
    assert!(matches!(
        file_name_from_path(&"".to_string()),
        Err(MessageError::NoFileName)
    ));
    assert!(matches!(
        file_name_from_path(&"/".to_string()),
        Err(MessageError::NoFileName)
    ));
    assert!(matches!(
        file_name_from_path(&".".to_string()),
        Err(MessageError::NoFileName)
    ));
    assert!(matches!(
        file_name_from_path(&"./.".to_string()),
        Err(MessageError::NoFileName)
    ));
    assert!(matches!(
        file_name_from_path(&"a/..".to_string()),
        Err(MessageError::NoFileName)
    ));
    assert!(matches!(
        file_name_from_path(&"a/../.".to_string()),
        Err(MessageError::NoFileName)
    ));
}

#[test]
fn put_file_request_carries_defaults_and_compressed_payload() {
    let raw: Vec<u8> = (0..512u32).map(|i| (i * 3) as u8).collect();
    let req = PutFileRequest::new_with_default_perms(
        &"local/data.bin".to_string(),
        &"/var/lib/agent/data.bin".to_string(),
        &raw,
    )
    .unwrap();
    assert_eq!(req.target_perms, 0o666);
    assert_eq!(req.target_path, "/var/lib/agent/data.bin");
    assert_eq!(req.file.filename, "data.bin");
    assert_eq!(req.file.decompressed().unwrap(), raw);
}

#[test]
fn put_file_request_rejects_pathless_target() {
    let r = PutFileRequest::new_with_default_perms(
        &"local/data.bin".to_string(),
        &"//".to_string(),
        &vec![1, 2, 3],
    );
    assert!(matches!(r, Err(MessageError::NoFileName)));
}

#[test]
fn chunked_requests_share_hash_path_and_perms() {
    let raw: Vec<u8> = (0..100_000u32).map(|i| (i % 41) as u8).collect();
    let req = PutFileRequest::new_with_default_perms(
        &"local/big.bin".to_string(),
        &"/var/lib/agent/big.bin".to_string(),
        &raw,
    )
    .unwrap();
    let hash = req.file.blake3_hash();
    let chunked = req.into_chunked_requests(1000);
    let n = chunked.len() as u64;
    assert_eq!(
        n as usize,
        (req.file.zstd_compressed_data.len() + 999) / 1000
    );
    let mut payload = Vec::new();
    for (i, c) in chunked.iter().enumerate() {
        assert_eq!(c.file_hash, hash);
        assert_eq!(c.target_perms, 0o666);
        assert_eq!(c.target_path, "/var/lib/agent/big.bin");
        assert_eq!(c.chunk.chunk_id, i as u64);
        assert_eq!(c.chunk.num_chunks, n);
        assert_eq!(c.chunk.filename, "big.bin");
        payload.extend_from_slice(&c.chunk.zstd_compressed_data_chunk);
    }
    assert_eq!(payload, req.file.zstd_compressed_data);
}
