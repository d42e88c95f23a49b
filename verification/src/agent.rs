//! The daemon-side agent: request handlers over the shared transfer
//! registry.
//!
//! The handlers decide; the surrounding process performs the I/O.  In
//! particular, on a completed chunked transfer the reassembled and
//! hash-verified file is handed back to the caller, who owns writing
//! it to disk.

use crate::hashing::{blake3_of, hash_eq};
use crate::messages::{
    spec_concat_chunk_data, spec_sort_by_id, CompressedWireFile, PutFileChunkRequest,
    PutFileChunkResponse,
};
use crate::registry::{ChunkIngest, InFlightTransfer, TransferRegistry};
use vstd::prelude::*;

verus! {

/// What a completed chunked transfer hands to the disk-write path:
/// the reassembled, hash-verified file and the destination recorded
/// when the transfer started.
#[derive(Debug)]
pub struct CompletedFile {
    pub file: CompressedWireFile,
    pub target_path: String,
    pub target_perms: u32,
}

/// Errors of agent construction.  The current construction cannot
/// fail (see the `ensures` of [`Agent::new`]); the type keeps the
/// fallible signature of the service.
#[derive(Debug)]
pub enum AgentError {
    /// Reserved: no agent operation currently produces this.
    ConstructionFailed,
}

/// One agent serving one connection, sharing the in-flight transfer
/// registry.
pub struct Agent {
    pub in_flight_transfers: TransferRegistry,
}

impl Agent {
    /// A fresh agent with an empty registry.
    pub fn new() -> (r: Result<Agent, AgentError>)
        ensures
            r is Ok,
            r->Ok_0.in_flight_transfers.wf(),
            r->Ok_0.in_flight_transfers.transfer_count() == 0,
            forall|k: Seq<u8>| !(#[trigger] r->Ok_0.in_flight_transfers.contains_transfer(k)),
    {
        Ok(Agent { in_flight_transfers: TransferRegistry::new() })
    }

    /// Handle one chunk submission.
    ///
    /// The chunk is recorded in the registry under its transfer key.
    /// A duplicate id answers `Duplicate` and changes nothing; an
    /// incomplete transfer answers `Progress` with the new count; the
    /// chunk that completes a transfer removes its entry, reassembles
    /// the file by chunk id and recomputes the content hash — on a
    /// match the response is `Complete` and the file is handed back,
    /// with its recorded destination, for the disk-write path,
    /// otherwise `Error`.
    pub fn put_file_chunk(&mut self, req: PutFileChunkRequest, now: u64) -> (r: (
        PutFileChunkResponse,
        Option<CompletedFile>,
    ))
        requires
            old(self).in_flight_transfers.wf(),
        ensures
            final(self).in_flight_transfers.wf(),
            ({
                let key = req.file_hash@;
                let id = req.chunk.chunk_id;
                let reg_old = old(self).in_flight_transfers;
                let reg_new = final(self).in_flight_transfers;
                let had = reg_old.contains_transfer(key);
                let prior = reg_old.transfer_at(key);
                let base = if had {
                    prior.chunks@
                } else {
                    Seq::empty()
                };
                let new_chunks = base.push(req.chunk);
                let sorted = spec_sort_by_id(new_chunks);
                let assembled = spec_concat_chunk_data(sorted);
                if had && prior.has_chunk_id(id) {
                    &&& r == (PutFileChunkResponse::Duplicate { chunk_id: id }, None::<
                        CompletedFile,
                    >)
                    &&& reg_new.contains_transfer(key)
                    &&& reg_new.transfer_at(key) == prior
                    &&& reg_new.transfer_count() == reg_old.transfer_count()
                } else if new_chunks.len() != new_chunks[0].num_chunks {
                    &&& r == (
                        PutFileChunkResponse::Progress {
                            chunk_id: id,
                            seen_chunks: new_chunks.len() as u64,
                        },
                        None::<CompletedFile>,
                    )
                    &&& reg_new.contains_transfer(key)
                    &&& reg_new.transfer_at(key).chunks@ == new_chunks
                    &&& reg_new.transfer_at(key).last_updated == now
                    &&& reg_new.transfer_at(key).target_path@ == if had {
                        prior.target_path@
                    } else {
                        req.target_path@
                    }
                    &&& reg_new.transfer_at(key).target_perms == if had {
                        prior.target_perms
                    } else {
                        req.target_perms
                    }
                } else {
                    &&& !reg_new.contains_transfer(key)
                    &&& if new_chunks.len() != sorted[0].num_chunks {
                        // the chunks disagree about the total: reassembly refuses
                        r == (PutFileChunkResponse::Error { chunk_id: id }, None::<
                            CompletedFile,
                        >)
                    } else if blake3_of(assembled) != key {
                        // reassembled bytes do not hash back to the transfer key
                        r == (PutFileChunkResponse::Error { chunk_id: id }, None::<
                            CompletedFile,
                        >)
                    } else {
                        &&& r.0 == PutFileChunkResponse::Complete { chunk_id: id }
                        &&& r.1 is Some
                        &&& r.1->Some_0.file.filename@ == sorted[0].filename@
                        &&& r.1->Some_0.file.zstd_compressed_data@ == assembled
                        &&& r.1->Some_0.target_path@ == if had {
                            prior.target_path@
                        } else {
                            req.target_path@
                        }
                        &&& r.1->Some_0.target_perms == if had {
                            prior.target_perms
                        } else {
                            req.target_perms
                        }
                    }
                }
            }),
            forall|k2: Seq<u8>|
                k2 != req.file_hash@ ==> {
                    &&& (#[trigger] final(self).in_flight_transfers.contains_transfer(k2))
                        == old(self).in_flight_transfers.contains_transfer(k2)
                    &&& old(self).in_flight_transfers.contains_transfer(k2)
                        ==> final(self).in_flight_transfers.transfer_at(k2)
                            == old(self).in_flight_transfers.transfer_at(k2)
                },
    {
        let PutFileChunkRequest { file_hash, target_perms, target_path, chunk } = req;
        let chunk_id = chunk.chunk_id;
        match self.in_flight_transfers.insert_chunk(
            &file_hash,
            &target_path,
            target_perms,
            now,
            chunk,
        ) {
            ChunkIngest::Duplicate => (PutFileChunkResponse::Duplicate { chunk_id }, None),
            ChunkIngest::Progress { seen_chunks } => (
                PutFileChunkResponse::Progress { chunk_id, seen_chunks },
                None,
            ),
            ChunkIngest::Complete { transfer } => {
                let InFlightTransfer {
                    target_path: recorded_path,
                    target_perms: recorded_perms,
                    last_updated: _,
                    chunks,
                } = transfer;
                match CompressedWireFile::from_chunks(chunks) {
                    Ok(file) => {
                        let reassembled_hash = file.blake3_hash();
                        if hash_eq(&reassembled_hash, &file_hash) {
                            (
                                PutFileChunkResponse::Complete { chunk_id },
                                Some(
                                    CompletedFile {
                                        file,
                                        target_path: recorded_path,
                                        target_perms: recorded_perms,
                                    },
                                ),
                            )
                        } else {
                            (PutFileChunkResponse::Error { chunk_id }, None)
                        }
                    },
                    Err(_) => (PutFileChunkResponse::Error { chunk_id }, None),
                }
            },
        }
    }
}

} // verus!
