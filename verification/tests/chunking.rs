use agent_lib::messages::{CompressedWireFile, CompressedWireFileChunk, MessageError};

#[test]
fn test_chunking_and_reassembling() {
    // Create a sample CompressedWireFile
    let filename = "test.txt".to_string();
    let zstd_compressed_data = vec![1, 2, 3, 4, 5, 6, 7, 8, 9, 10];
    let compressed_wire_file = CompressedWireFile {
        filename: filename.clone(),
        zstd_compressed_data: zstd_compressed_data.clone(),
    };

    // Define the desired chunk size
    let chunk_size = 4;

    // Chunk the CompressedWireFile
    let chunks: Vec<CompressedWireFileChunk> =
        compressed_wire_file.into_chunks_with_size(chunk_size);

    // Verify the number of chunks is correct
    let expected_num_chunks =
        (zstd_compressed_data.len() as f64 / chunk_size as f64).ceil() as u64;
    assert_eq!(chunks.len(), expected_num_chunks as usize);

    // Verify the chunk content and metadata
    for (i, chunk) in chunks.iter().enumerate() {
        assert_eq!(chunk.filename, filename);
        assert_eq!(chunk.chunk_id, i as u64);
        assert_eq!(chunk.num_chunks, expected_num_chunks);

        let start = i * chunk_size;
        let end = usize::min(start + chunk_size, zstd_compressed_data.len());
        let expected_data = &zstd_compressed_data[start..end];
        assert_eq!(chunk.zstd_compressed_data_chunk, expected_data);
    }

    // Reassemble the CompressedWireFile from the chunks
    let reassembled_compressed_wire_file = CompressedWireFile::from_chunks(chunks).unwrap();

    // Verify the reassembled CompressedWireFile is identical to the original
    assert_eq!(reassembled_compressed_wire_file.filename, filename);
    assert_eq!(
        reassembled_compressed_wire_file.zstd_compressed_data,
        zstd_compressed_data
    );
}

fn sample_file(len: usize) -> CompressedWireFile {
    CompressedWireFile {
        filename: "payload.bin".to_string(),
        zstd_compressed_data: (0..len).map(|i| (i % 251) as u8).collect(),
    }
}

#[test]
fn round_trip_exact_multiple() {
    // 10 bytes in windows of 5: two full chunks, nothing left over
    let file = sample_file(10);
    let chunks = file.into_chunks_with_size(5);
    assert_eq!(chunks.len(), 2);
    assert_eq!(chunks[0].zstd_compressed_data_chunk.len(), 5);
    assert_eq!(chunks[1].zstd_compressed_data_chunk.len(), 5);
    let back = CompressedWireFile::from_chunks(chunks).unwrap();
    assert_eq!(back.zstd_compressed_data, file.zstd_compressed_data);
}

#[test]
fn round_trip_chunk_size_one() {
    let file = sample_file(7);
    let chunks = file.into_chunks_with_size(1);
    assert_eq!(chunks.len(), 7);
    for c in &chunks {
        assert_eq!(c.zstd_compressed_data_chunk.len(), 1);
    }
    let back = CompressedWireFile::from_chunks(chunks).unwrap();
    assert_eq!(back.zstd_compressed_data, file.zstd_compressed_data);
}

#[test]
fn round_trip_chunk_size_larger_than_data() {
    let file = sample_file(3);
    let chunks = file.into_chunks_with_size(100);
    assert_eq!(chunks.len(), 1);
    assert_eq!(chunks[0].num_chunks, 1);
    let back = CompressedWireFile::from_chunks(chunks).unwrap();
    assert_eq!(back.zstd_compressed_data, file.zstd_compressed_data);
}

#[test]
fn empty_payload_yields_no_chunks() {
    let file = sample_file(0);
    let chunks = file.into_chunks_with_size(4);
    assert_eq!(chunks.len(), 0);
}

#[test]
fn reassembly_ignores_arrival_order() {
    let file = sample_file(23);
    let mut chunks = file.into_chunks_with_size(5);
    assert_eq!(chunks.len(), 5);
    // deliver in the order 3, 0, 4, 2, 1
    let order = [3usize, 0, 4, 2, 1];
    let mut shuffled = Vec::new();
    for &i in order.iter() {
        shuffled.push(chunks[i].clone());
    }
    chunks.clear();
    let back = CompressedWireFile::from_chunks(shuffled).unwrap();
    assert_eq!(back.filename, "payload.bin");
    assert_eq!(back.zstd_compressed_data, file.zstd_compressed_data);
}

#[test]
fn from_chunks_rejects_empty_set() {
    let r = CompressedWireFile::from_chunks(Vec::new());
    assert!(matches!(r, Err(MessageError::NoChunks)));
}

#[test]
fn from_chunks_rejects_wrong_count() {
    // drop one chunk of three: the recorded total no longer matches
    let file = sample_file(12);
    let mut chunks = file.into_chunks_with_size(5);
    assert_eq!(chunks.len(), 3);
    chunks.remove(1);
    match CompressedWireFile::from_chunks(chunks) {
        Err(MessageError::WrongNumberOfChunks { expected, actual }) => {
            assert_eq!(expected, 3);
            assert_eq!(actual, 2);
        }
        other => panic!("expected WrongNumberOfChunks, got {:?}", other),
    }
}

#[test]
fn from_chunks_never_truncates_or_pads() {
    // an extra duplicate chunk also fails the count check
    let file = sample_file(8);
    let mut chunks = file.into_chunks_with_size(4);
    assert_eq!(chunks.len(), 2);
    chunks.push(chunks[0].clone());
    match CompressedWireFile::from_chunks(chunks) {
        Err(MessageError::WrongNumberOfChunks { expected, actual }) => {
            assert_eq!(expected, 2);
            assert_eq!(actual, 3);
        }
        other => panic!("expected WrongNumberOfChunks, got {:?}", other),
    }
}
