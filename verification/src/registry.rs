//! The in-flight transfer registry: server-side accumulation state
//! for chunked file transfers.
//!
//! The registry maps a transfer's content hash to the chunks received
//! so far.  A chunk whose id was already recorded is rejected as a
//! duplicate and changes nothing; the chunk that brings the count of
//! distinct ids up to the total recorded on the first-received chunk
//! removes the entry and hands the accumulated chunks to the caller,
//! so at most one caller ever observes a transfer as complete.
//!
//! A chunk arriving under a hash whose transfer already completed (and
//! was removed) deliberately starts a fresh transfer under the same
//! key: the registry keeps no memory of finished transfers.

use crate::messages::CompressedWireFileChunk;
use vstd::prelude::*;

verus! {

/// Accumulation state of one transfer that has started but not yet
/// completed.
#[derive(Debug)]
pub struct InFlightTransfer {
    pub target_path: String,
    pub target_perms: u32,
    /// Timestamp (caller-supplied clock) of the last accepted chunk.
    pub last_updated: u64,
    /// The chunks received so far, in arrival order.
    pub chunks: Vec<CompressedWireFileChunk>,
}

impl InFlightTransfer {
    /// Some received chunk carries this id.
    pub open spec fn has_chunk_id(self, id: u64) -> bool {
        exists|i: int|
            0 <= i < self.chunks@.len() && (#[trigger] self.chunks@[i]).chunk_id == id
    }

    /// At least one chunk, and no two chunks share an id.
    pub open spec fn wf(self) -> bool {
        &&& self.chunks@.len() >= 1
        &&& forall|i: int, j: int|
            0 <= i < j < self.chunks@.len() ==> (#[trigger] self.chunks@[i]).chunk_id != (
            #[trigger] self.chunks@[j]).chunk_id
    }
}

struct RegistryEntry {
    key: [u8; 32],
    transfer: InFlightTransfer,
}

/// First transfer stored under `key`, scanning from the front.
spec fn spec_find(entries: Seq<RegistryEntry>, key: Seq<u8>) -> Option<InFlightTransfer>
    decreases entries.len(),
{
    if entries.len() == 0 {
        None
    } else if entries[0].key@ == key {
        Some(entries[0].transfer)
    } else {
        spec_find(entries.drop_first(), key)
    }
}

proof fn lemma_find_none(entries: Seq<RegistryEntry>, key: Seq<u8>)
    requires
        forall|j: int| 0 <= j < entries.len() ==> (#[trigger] entries[j]).key@ != key,
    ensures
        spec_find(entries, key) is None,
    decreases entries.len(),
{
    if entries.len() > 0 {
        lemma_find_none(entries.drop_first(), key);
    }
}

proof fn lemma_find_append(a: Seq<RegistryEntry>, b: Seq<RegistryEntry>, key: Seq<u8>)
    ensures
        spec_find(a + b, key) == if spec_find(a, key) is Some {
            spec_find(a, key)
        } else {
            spec_find(b, key)
        },
    decreases a.len(),
{
    if a.len() == 0 {
        assert(a + b =~= b);
    } else {
        assert((a + b).drop_first() =~= a.drop_first() + b);
        lemma_find_append(a.drop_first(), b, key);
    }
}

proof fn lemma_find_singleton(e: RegistryEntry, key: Seq<u8>)
    ensures
        spec_find(seq![e], key) == if e.key@ == key {
            Some(e.transfer)
        } else {
            None::<InFlightTransfer>
        },
{
    assert(seq![e].len() == 1);
    assert(seq![e][0] == e);
    assert(seq![e].drop_first() =~= Seq::<RegistryEntry>::empty());
    if e.key@ == key {
        assert(spec_find(seq![e], key) == Some(e.transfer));
    } else {
        assert(spec_find(seq![e], key) == spec_find(Seq::<RegistryEntry>::empty(), key));
    }
}

/// If a non-matching prefix is dropped, the lookup is unchanged.
proof fn lemma_find_skip_miss(entries: Seq<RegistryEntry>, key: Seq<u8>, i: int)
    requires
        0 <= i <= entries.len(),
        forall|j: int| 0 <= j < i ==> (#[trigger] entries[j]).key@ != key,
    ensures
        spec_find(entries, key) == spec_find(entries.skip(i), key),
    decreases i,
{
    if i == 0 {
        assert(entries.skip(0) =~= entries);
    } else {
        assert(entries.drop_first() =~= entries.skip(1));
        lemma_find_skip_miss(entries.drop_first(), key, i - 1);
        assert(entries.drop_first().skip(i - 1) =~= entries.skip(i));
    }
}

/// The shared registry of transfers that have started but not yet
/// completed, keyed by content hash.
pub struct TransferRegistry {
    entries: Vec<RegistryEntry>,
}

/// What the registry did with one submitted chunk.
pub enum ChunkIngest {
    /// A chunk with this id was already recorded; nothing changed.
    Duplicate,
    /// The chunk was recorded; the transfer is still incomplete.
    Progress { seen_chunks: u64 },
    /// The chunk brought the count up to the recorded total: the
    /// entry was removed and its accumulated state is handed over.
    Complete { transfer: InFlightTransfer },
}

impl TransferRegistry {
    /// A transfer under `key` is currently accumulating.
    pub closed spec fn contains_transfer(self, key: Seq<u8>) -> bool {
        spec_find(self.entries@, key) is Some
    }

    /// The accumulation state stored under `key`.
    pub closed spec fn transfer_at(self, key: Seq<u8>) -> InFlightTransfer {
        spec_find(self.entries@, key)->Some_0
    }

    /// Number of transfers currently accumulating.
    pub closed spec fn transfer_count(self) -> int {
        self.entries@.len() as int
    }

    /// Keys are distinct and every stored transfer is well-formed.
    pub closed spec fn wf(self) -> bool {
        &&& forall|i: int, j: int|
            0 <= i < j < self.entries@.len() ==> (#[trigger] self.entries@[i]).key@ != (
            #[trigger] self.entries@[j]).key@
        &&& forall|i: int|
            0 <= i < self.entries@.len() ==> (#[trigger] self.entries@[i]).transfer.wf()
    }

    /// An empty registry: no transfer is in flight.
    pub fn new() -> (r: TransferRegistry)
        ensures
            r.wf(),
            r.transfer_count() == 0,
            forall|k: Seq<u8>| !(#[trigger] r.contains_transfer(k)),
    {
        let r = TransferRegistry { entries: Vec::new() };
        proof {
            assert forall|k: Seq<u8>| !(#[trigger] r.contains_transfer(k)) by {
                assert(spec_find(r.entries@, k) is None);
            }
        }
        r
    }

    /// Index of the entry under `key`, when one exists.
    fn find_index(&self, key: &[u8; 32]) -> (r: Option<usize>)
        ensures
            match r {
                Some(i) => {
                    &&& i < self.entries@.len()
                    &&& self.entries@[i as int].key@ == key@
                    &&& forall|j: int|
                        0 <= j < i ==> (#[trigger] self.entries@[j]).key@ != key@
                    &&& self.contains_transfer(key@)
                    &&& self.transfer_at(key@) == self.entries@[i as int].transfer
                },
                None => !self.contains_transfer(key@),
            },
    {
        let mut i: usize = 0;
        while i < self.entries.len()
            invariant
                0 <= i <= self.entries@.len(),
                forall|j: int| 0 <= j < i ==> (#[trigger] self.entries@[j]).key@ != key@,
            decreases self.entries@.len() - i,
        {
            if crate::hashing::hash_eq(&self.entries[i].key, key) {
                proof {
                    lemma_find_skip_miss(self.entries@, key@, i as int);
                    assert(self.entries@.skip(i as int)[0] == self.entries@[i as int]);
                }
                return Some(i);
            }
            i = i + 1;
        }
        proof {
            lemma_find_none(self.entries@, key@);
        }
        None
    }

    /// Record one submitted chunk under its transfer key, atomically
    /// deciding between duplicate rejection, progress and completion.
    ///
    /// * First chunk for a key creates the transfer (timestamped `now`).
    /// * A chunk whose id is already recorded is rejected as a
    ///   duplicate and mutates nothing.
    /// * Otherwise the chunk is appended and the timestamp refreshed;
    ///   if the count now equals the total recorded on the
    ///   first-received chunk, the entry is removed and handed back,
    ///   so exactly one caller observes completion.
    #[verifier::rlimit(100)]
    #[verifier::spinoff_prover]
    pub fn insert_chunk(
        &mut self,
        file_hash: &[u8; 32],
        target_path: &String,
        target_perms: u32,
        now: u64,
        chunk: CompressedWireFileChunk,
    ) -> (r: ChunkIngest)
        requires
            old(self).wf(),
        ensures
            final(self).wf(),
            ({
                let key = file_hash@;
                let had = old(self).contains_transfer(key);
                let prior = old(self).transfer_at(key);
                let base = if had {
                    prior.chunks@
                } else {
                    Seq::<CompressedWireFileChunk>::empty()
                };
                let new_chunks = base.push(chunk);
                if had && prior.has_chunk_id(chunk.chunk_id) {
                    &&& r is Duplicate
                    &&& final(self).contains_transfer(key)
                    &&& final(self).transfer_at(key) == prior
                    &&& final(self).transfer_count() == old(self).transfer_count()
                } else if new_chunks.len() == new_chunks[0].num_chunks {
                    &&& r matches ChunkIngest::Complete { transfer } && {
                        &&& transfer.chunks@ == new_chunks
                        &&& transfer.last_updated == now
                        &&& transfer.target_path@ == if had {
                            prior.target_path@
                        } else {
                            target_path@
                        }
                        &&& transfer.target_perms == if had {
                            prior.target_perms
                        } else {
                            target_perms
                        }
                    }
                    &&& !final(self).contains_transfer(key)
                } else {
                    &&& r == ChunkIngest::Progress { seen_chunks: new_chunks.len() as u64 }
                    &&& final(self).contains_transfer(key)
                    &&& final(self).transfer_at(key).chunks@ == new_chunks
                    &&& final(self).transfer_at(key).last_updated == now
                    &&& final(self).transfer_at(key).target_path@ == if had {
                        prior.target_path@
                    } else {
                        target_path@
                    }
                    &&& final(self).transfer_at(key).target_perms == if had {
                        prior.target_perms
                    } else {
                        target_perms
                    }
                }
            }),
            forall|k2: Seq<u8>|
                k2 != file_hash@ ==> {
                    &&& (#[trigger] final(self).contains_transfer(k2))
                        == old(self).contains_transfer(k2)
                    &&& old(self).contains_transfer(k2)
                        ==> final(self).transfer_at(k2) == old(self).transfer_at(k2)
                },
    {
        let ghost pre = old(self).entries@;
        match self.find_index(file_hash) {
            None => {
                let mut chunks: Vec<CompressedWireFileChunk> = Vec::new();
                chunks.push(chunk);
                assert(chunks@ =~= Seq::<CompressedWireFileChunk>::empty().push(chunk));
                let transfer = InFlightTransfer {
                    target_path: target_path.clone(),
                    target_perms,
                    last_updated: now,
                    chunks,
                };
                if transfer.chunks[0].num_chunks == 1 {
                    // a single-chunk transfer completes immediately and
                    // never enters the registry
                    assert(forall|k2: Seq<u8>| #![auto] k2 != file_hash@
                        ==> self.contains_transfer(k2) == old(self).contains_transfer(k2));
                    ChunkIngest::Complete { transfer }
                } else {
                    let entry = RegistryEntry { key: *file_hash, transfer };
                    let ghost e = entry;
                    self.entries.push(entry);
                    proof {
                        assert(self.entries@ =~= pre + seq![e]);
                        lemma_find_append(pre, seq![e], file_hash@);
                        lemma_find_singleton(e, file_hash@);
                        assert forall|k2: Seq<u8>| k2 != file_hash@ implies
                            (#[trigger] self.contains_transfer(k2))
                                == old(self).contains_transfer(k2)
                            && (old(self).contains_transfer(k2)
                                ==> self.transfer_at(k2) == old(self).transfer_at(k2)) by {
                            lemma_find_append(pre, seq![e], k2);
                            lemma_find_singleton(e, k2);
                        }
                        // the new key was absent, so key distinctness holds
                        assert forall|i: int, j: int|
                            0 <= i < j < self.entries@.len() implies (#[trigger] self.entries@[
                        i]).key@ != (#[trigger] self.entries@[j]).key@ by {
                            if j == pre.len() {
                                if self.entries@[i].key@ == file_hash@ {
                                    lemma_match_implies_found(pre, file_hash@, i);
                                }
                            }
                        }
                        // restate with free triggers for the postcondition
                        assert(forall|k2: Seq<u8>| #![auto] k2 != file_hash@
                            ==> self.contains_transfer(k2) == old(self).contains_transfer(k2));
                    }
                    ChunkIngest::Progress { seen_chunks: 1 }
                }
            },
            Some(i) => {
                let ghost prior = old(self).transfer_at(file_hash@);
                // duplicate detection against the recorded chunk ids
                let mut j: usize = 0;
                let n: usize = self.entries[i].transfer.chunks.len();
                while j < n
                    invariant
                        0 <= j <= n,
                        i < self.entries@.len(),
                        self == old(self),
                        old(self).wf(),
                        old(self).contains_transfer(file_hash@),
                        old(self).transfer_at(file_hash@) == prior,
                        self.entries@[i as int].key@ == file_hash@,
                        forall|m: int|
                            0 <= m < i ==> (#[trigger] self.entries@[m]).key@ != file_hash@,
                        n == self.entries@[i as int].transfer.chunks@.len(),
                        self.entries@[i as int].transfer == prior,
                        forall|m: int|
                            0 <= m < j ==> (#[trigger] prior.chunks@[m]).chunk_id
                                != chunk.chunk_id,
                    decreases n - j,
                {
                    if self.entries[i].transfer.chunks[j].chunk_id == chunk.chunk_id {
                        assert(prior.has_chunk_id(chunk.chunk_id));
                        assert(forall|k2: Seq<u8>| #![auto] k2 != file_hash@
                            ==> self.contains_transfer(k2) == old(self).contains_transfer(k2));
                        return ChunkIngest::Duplicate;
                    }
                    j = j + 1;
                }
                assert(!prior.has_chunk_id(chunk.chunk_id));
                let mut entry = self.entries.remove(i);
                assert(entry.transfer == prior);
                entry.transfer.last_updated = now;
                entry.transfer.chunks.push(chunk);
                let ghost mid = self.entries@;
                let ghost e_old = pre[i as int];
                proof {
                    assert(mid =~= pre.take(i as int) + pre.skip(i + 1));
                    assert(pre =~= pre.take(i as int) + seq![e_old] + pre.skip(i + 1));
                    assert(pre =~= pre.take(i as int) + (seq![e_old] + pre.skip(i + 1)));
                    lemma_find_none(pre.take(i as int), file_hash@);
                    // every entry past i carries a different key
                    assert forall|m: int|
                        0 <= m < pre.skip(i + 1).len() implies (#[trigger] pre.skip(i + 1)[
                    m]).key@ != file_hash@ by {
                        assert(pre.skip(i + 1)[m] == pre[i + 1 + m]);
                    }
                    lemma_find_none(pre.skip(i + 1), file_hash@);
                }
                let seen: u64 = entry.transfer.chunks.len() as u64;
                if seen == entry.transfer.chunks[0].num_chunks {
                    proof {
                        lemma_find_append(pre.take(i as int), pre.skip(i + 1), file_hash@);
                        lemma_wf_entries_remove(pre, i as int);
                        assert forall|k2: Seq<u8>| k2 != file_hash@ implies
                            (#[trigger] self.contains_transfer(k2))
                                == old(self).contains_transfer(k2)
                            && (old(self).contains_transfer(k2)
                                ==> self.transfer_at(k2) == old(self).transfer_at(k2)) by {
                            lemma_find_append(pre.take(i as int), seq![e_old] + pre.skip(i + 1), k2);
                            lemma_find_append(seq![e_old], pre.skip(i + 1), k2);
                            lemma_find_singleton(e_old, k2);
                            lemma_find_append(pre.take(i as int), pre.skip(i + 1), k2);
                        }
                        // restate with free triggers for the postcondition
                        assert(forall|k2: Seq<u8>| #![auto] k2 != file_hash@
                            ==> self.contains_transfer(k2) == old(self).contains_transfer(k2));
                    }
                    ChunkIngest::Complete { transfer: entry.transfer }
                } else {
                    let ghost e_new = RegistryEntry { key: e_old.key, transfer: entry.transfer };
                    self.entries.insert(i, entry);
                    proof {
                        assert(self.entries@ =~= pre.take(i as int) + seq![e_new] + pre.skip(
                            i + 1,
                        ));
                        assert(self.entries@ =~= pre.take(i as int) + (seq![e_new] + pre.skip(
                            i + 1,
                        )));
                        lemma_find_append(
                            pre.take(i as int),
                            seq![e_new] + pre.skip(i + 1),
                            file_hash@,
                        );
                        lemma_find_append(seq![e_new], pre.skip(i + 1), file_hash@);
                        lemma_find_singleton(e_new, file_hash@);
                        assert forall|k2: Seq<u8>| k2 != file_hash@ implies
                            (#[trigger] self.contains_transfer(k2))
                                == old(self).contains_transfer(k2)
                            && (old(self).contains_transfer(k2)
                                ==> self.transfer_at(k2) == old(self).transfer_at(k2)) by {
                            lemma_find_append(pre.take(i as int), seq![e_old] + pre.skip(i + 1), k2);
                            lemma_find_append(seq![e_old], pre.skip(i + 1), k2);
                            lemma_find_singleton(e_old, k2);
                            lemma_find_append(pre.take(i as int), seq![e_new] + pre.skip(i + 1), k2);
                            lemma_find_append(seq![e_new], pre.skip(i + 1), k2);
                            lemma_find_singleton(e_new, k2);
                        }
                        // keys are unchanged position by position
                        assert forall|m: int|
                            0 <= m < self.entries@.len() implies (#[trigger] self.entries@[
                        m]).key@ == pre[m].key@ by {}
                        assert forall|i2: int, j2: int|
                            0 <= i2 < j2 < self.entries@.len() implies (#[trigger] self.entries@[
                        i2]).key@ != (#[trigger] self.entries@[j2]).key@ by {
                            assert(pre[i2].key@ != pre[j2].key@);
                        }
                        // restate with free triggers for the postcondition
                        assert(forall|k2: Seq<u8>| #![auto] k2 != file_hash@
                            ==> self.contains_transfer(k2) == old(self).contains_transfer(k2));
                    }
                    ChunkIngest::Progress { seen_chunks: seen }
                }
            },
        }
    }
}

impl TransferRegistry {
    /// Drop every transfer whose last accepted chunk is older than
    /// `max_idle` ticks before `now`: an abandoned transfer must not
    /// occupy memory for the life of the process.
    ///
    /// A transfer survives exactly when `last_updated + max_idle >= now`.
    pub fn sweep_stale(&mut self, now: u64, max_idle: u64)
        requires
            old(self).wf(),
        ensures
            final(self).wf(),
            forall|k: Seq<u8>|
                (#[trigger] final(self).contains_transfer(k)) <==> (old(self).contains_transfer(k)
                    && old(self).transfer_at(k).last_updated + max_idle >= now),
            forall|k: Seq<u8>|
                final(self).contains_transfer(k) ==> #[trigger] final(self).transfer_at(k) == old(
                    self,
                ).transfer_at(k),
    {
        let ghost pre = old(self).entries@;
        let ghost keep_pred = |e: RegistryEntry| e.transfer.last_updated + max_idle >= now;
        let mut kept: Vec<RegistryEntry> = Vec::new();
        let ghost mut k: int = 0;
        #[verifier::loop_isolation(false)]
        while self.entries.len() > 0
            invariant
                0 <= k <= pre.len(),
                self.entries@ == pre.skip(k),
                kept@ == pre.take(k).filter(keep_pred),
            decreases self.entries@.len(),
        {
            let entry = self.entries.remove(0);
            assert(entry == pre[k]);
            assert(self.entries@ =~= pre.skip(k + 1));
            let keep = if max_idle > u64::MAX - entry.transfer.last_updated {
                // the idle window never expires within the clock's range
                true
            } else {
                entry.transfer.last_updated + max_idle >= now
            };
            if keep {
                kept.push(entry);
            }
            proof {
                assert(keep == keep_pred(pre[k]));
                assert(pre.take(k + 1).drop_last() =~= pre.take(k));
                assert(pre.take(k + 1).last() == pre[k]);
                reveal(Seq::filter);
            }
            proof {
                k = k + 1;
            }
        }
        proof {
            assert(pre.take(pre.len() as int) =~= pre);
        }
        self.entries = kept;
        proof {
            assert forall|k2: Seq<u8>| (#[trigger] self.contains_transfer(k2)) <==> (old(
                self,
            ).contains_transfer(k2) && old(self).transfer_at(k2).last_updated + max_idle >= now)
                by {
                lemma_find_filter(pre, keep_pred, k2);
                if old(self).contains_transfer(k2) {
                    lemma_find_entry_matches(pre, k2);
                }
            }
            assert forall|k2: Seq<u8>| self.contains_transfer(k2) implies #[trigger] self
                .transfer_at(k2) == old(self).transfer_at(k2) by {
                lemma_find_filter(pre, keep_pred, k2);
            }
            lemma_wf_filter(pre, keep_pred);
        }
    }
}

/// Looking a key up in a filtered registry sequence: found exactly
/// when it is found in the original and its entry passes the filter,
/// and then with the same transfer.
proof fn lemma_find_filter(
    entries: Seq<RegistryEntry>,
    pred: spec_fn(RegistryEntry) -> bool,
    key: Seq<u8>,
)
    requires
        forall|a: int, b: int|
            0 <= a < b < entries.len() ==> (#[trigger] entries[a]).key@ != (
            #[trigger] entries[b]).key@,
    ensures
        spec_find(entries.filter(pred), key) is Some <==> (spec_find(entries, key) is Some && pred(
            spec_find_entry(entries, key),
        )),
        spec_find(entries.filter(pred), key) is Some ==> spec_find(entries.filter(pred), key)
            == spec_find(entries, key),
    decreases entries.len(),
{
    reveal(Seq::filter);
    if entries.len() == 0 {
    } else {
        let last = entries.last();
        let front = entries.drop_last();
        assert(entries =~= front.push(last));
        assert forall|a: int, b: int|
            0 <= a < b < front.len() implies (#[trigger] front[a]).key@ != (
        #[trigger] front[b]).key@ by {
            assert(front[a] == entries[a]);
            assert(front[b] == entries[b]);
        }
        lemma_find_filter(front, pred, key);
        lemma_find_append_back(front, last, key);
        if spec_find(front, key) is Some {
            // `key` sits in the front, so `last` cannot carry it too
            lemma_find_some_has_index(front, key);
            let w = choose|w: int| 0 <= w < front.len() && front[w].key@ == key;
            assert(entries[w] == front[w]);
            assert(entries[entries.len() - 1] == last);
            assert(last.key@ != key);
            lemma_find_entry_matches(front, key);
        }
        if pred(last) {
            assert(entries.filter(pred) =~= front.filter(pred).push(last));
            lemma_find_append_back(front.filter(pred), last, key);
        } else {
            assert(entries.filter(pred) =~= front.filter(pred));
        }
    }
}

/// A successful lookup has a matching entry at some index.
proof fn lemma_find_some_has_index(entries: Seq<RegistryEntry>, key: Seq<u8>)
    requires
        spec_find(entries, key) is Some,
    ensures
        exists|w: int| 0 <= w < entries.len() && (#[trigger] entries[w]).key@ == key,
    decreases entries.len(),
{
    if entries[0].key@ == key {
        assert(entries[0].key@ == key);
    } else {
        lemma_find_some_has_index(entries.drop_first(), key);
        let w = choose|w: int|
            0 <= w < entries.drop_first().len() && (#[trigger] entries.drop_first()[w]).key@
                == key;
        assert(entries[w + 1].key@ == key);
    }
}

/// Every element of a filtered sequence occurs in the original.
proof fn lemma_filter_subset(entries: Seq<RegistryEntry>, pred: spec_fn(RegistryEntry) -> bool)
    ensures
        forall|a: int|
            0 <= a < entries.filter(pred).len() ==> entries.contains(
                #[trigger] entries.filter(pred)[a],
            ),
    decreases entries.len(),
{
    reveal(Seq::filter);
    if entries.len() > 0 {
        let last = entries.last();
        let front = entries.drop_last();
        lemma_filter_subset(front, pred);
        assert forall|a: int|
            0 <= a < entries.filter(pred).len() implies entries.contains(
            #[trigger] entries.filter(pred)[a],
        ) by {
            if pred(last) && a == entries.filter(pred).len() - 1 {
                assert(entries[entries.len() - 1] == last);
            } else {
                assert(entries.filter(pred)[a] == front.filter(pred)[a]);
                assert(front.contains(front.filter(pred)[a]));
                let w = choose|w: int|
                    0 <= w < front.len() && front[w] == front.filter(pred)[a];
                assert(entries[w] == front[w]);
            }
        }
    }
}

/// The entry (not just the transfer) that a lookup finds.
spec fn spec_find_entry(entries: Seq<RegistryEntry>, key: Seq<u8>) -> RegistryEntry
    decreases entries.len(),
{
    if entries.len() == 0 {
        arbitrary()
    } else if entries[0].key@ == key {
        entries[0]
    } else {
        spec_find_entry(entries.drop_first(), key)
    }
}

/// Appending one entry at the back changes a lookup only for that
/// entry's key, and only when the key was absent.
proof fn lemma_find_append_back(entries: Seq<RegistryEntry>, e: RegistryEntry, key: Seq<u8>)
    ensures
        spec_find(entries.push(e), key) == if spec_find(entries, key) is Some {
            spec_find(entries, key)
        } else if e.key@ == key {
            Some(e.transfer)
        } else {
            None::<InFlightTransfer>
        },
        spec_find(entries, key) is Some ==> spec_find_entry(entries.push(e), key)
            == spec_find_entry(entries, key),
        spec_find(entries, key) is None && e.key@ == key ==> spec_find_entry(
            entries.push(e),
            key,
        ) == e,
        spec_find(entries, key) is Some ==> pred_entry_matches(entries, key),
    decreases entries.len(),
{
    assert(entries.push(e) =~= entries + seq![e]);
    lemma_find_append(entries, seq![e], key);
    lemma_find_singleton(e, key);
    if entries.len() == 0 {
        assert(entries.push(e).drop_first() =~= Seq::<RegistryEntry>::empty());
    } else {
        assert(entries.push(e).drop_first() =~= entries.drop_first().push(e));
        lemma_find_append_back(entries.drop_first(), e, key);
    }
}

/// The transfer a lookup returns belongs to the entry it finds.
spec fn pred_entry_matches(entries: Seq<RegistryEntry>, key: Seq<u8>) -> bool {
    spec_find_entry(entries, key).key@ == key && spec_find(entries, key) == Some(
        spec_find_entry(entries, key).transfer,
    )
}

proof fn lemma_find_entry_matches(entries: Seq<RegistryEntry>, key: Seq<u8>)
    requires
        spec_find(entries, key) is Some,
    ensures
        pred_entry_matches(entries, key),
    decreases entries.len(),
{
    if entries.len() > 0 && entries[0].key@ != key {
        lemma_find_entry_matches(entries.drop_first(), key);
    }
}

/// A filtered entry sequence keeps distinct keys and well-formed
/// transfers.
proof fn lemma_wf_filter(entries: Seq<RegistryEntry>, pred: spec_fn(RegistryEntry) -> bool)
    requires
        forall|a: int, b: int|
            0 <= a < b < entries.len() ==> (#[trigger] entries[a]).key@ != (
            #[trigger] entries[b]).key@,
        forall|a: int| 0 <= a < entries.len() ==> (#[trigger] entries[a]).transfer.wf(),
    ensures
        forall|a: int, b: int|
            0 <= a < b < entries.filter(pred).len() ==> (#[trigger] entries.filter(pred)[a]).key@
                != (#[trigger] entries.filter(pred)[b]).key@,
        forall|a: int|
            0 <= a < entries.filter(pred).len() ==> (#[trigger] entries.filter(
                pred,
            )[a]).transfer.wf(),
    decreases entries.len(),
{
    reveal(Seq::filter);
    if entries.len() == 0 {
    } else {
        let last = entries.last();
        let front = entries.drop_last();
        lemma_wf_filter(front, pred);
        if pred(last) {
            assert(entries.filter(pred) =~= front.filter(pred).push(last));
            lemma_filter_subset(front, pred);
            assert forall|a: int|
                0 <= a < front.filter(pred).len() implies (#[trigger] front.filter(pred)[a]).key@
                != last.key@ by {
                assert(front.contains(front.filter(pred)[a]));
                let w = choose|w: int|
                    0 <= w < front.len() && front[w] == front.filter(pred)[a];
                assert(entries[w] == front[w]);
                assert(entries[entries.len() - 1] == last);
            }
        } else {
            assert(entries.filter(pred) =~= front.filter(pred));
        }
    }
}

/// If some entry matches, the lookup succeeds.
proof fn lemma_match_implies_found(entries: Seq<RegistryEntry>, key: Seq<u8>, i: int)
    requires
        0 <= i < entries.len(),
        entries[i].key@ == key,
    ensures
        spec_find(entries, key) is Some,
    decreases i,
{
    if entries[0].key@ != key {
        lemma_match_implies_found(entries.drop_first(), key, i - 1);
    }
}

/// Distinct keys and well-formed transfers survive removal of one entry.
proof fn lemma_wf_entries_remove(pre: Seq<RegistryEntry>, i: int)
    requires
        0 <= i < pre.len(),
        forall|a: int, b: int|
            0 <= a < b < pre.len() ==> (#[trigger] pre[a]).key@ != (#[trigger] pre[b]).key@,
        forall|a: int| 0 <= a < pre.len() ==> (#[trigger] pre[a]).transfer.wf(),
    ensures
        ({
            let after = pre.take(i) + pre.skip(i + 1);
            &&& forall|a: int, b: int|
                0 <= a < b < after.len() ==> (#[trigger] after[a]).key@ != (
                #[trigger] after[b]).key@
            &&& forall|a: int| 0 <= a < after.len() ==> (#[trigger] after[a]).transfer.wf()
        }),
{
    let after = pre.take(i) + pre.skip(i + 1);
    assert forall|a: int, b: int|
        0 <= a < b < after.len() implies (#[trigger] after[a]).key@ != (
    #[trigger] after[b]).key@ by {
        let a0 = if a < i {
            a
        } else {
            a + 1
        };
        let b0 = if b < i {
            b
        } else {
            b + 1
        };
        assert(after[a] == pre[a0]);
        assert(after[b] == pre[b0]);
    }
    assert forall|a: int| 0 <= a < after.len() implies (#[trigger] after[a]).transfer.wf() by {
        let a0 = if a < i {
            a
        } else {
            a + 1
        };
        assert(after[a] == pre[a0]);
    }
}

} // verus!
