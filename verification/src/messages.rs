//! Wire message types of the agent protocol, and the chunking /
//! reassembly logic of the chunked file-transfer path.
//!
//! A file travels compressed.  The sender splits the compressed bytes
//! into windows of a fixed target size (the last window may be
//! shorter); each window becomes one `CompressedWireFileChunk`
//! carrying its 0-based `chunk_id` and the total chunk count.  The
//! receiver reassembles by `chunk_id`, not by arrival order.

use crate::compress::{
    zstd_compress, zstd_compress_of, zstd_compress_ok, zstd_decompress, zstd_decompress_of,
    zstd_decompress_ok,
};
use crate::hashing::{blake3_hash_bytes, blake3_of};
use vstd::prelude::*;

verus! {

/// Compression level used for all payloads put on the wire.
pub const WIRE_COMPRESSION_LEVEL: i32 = 3;

/// Default permission bits given to pushed files.
pub const DEFAULT_TARGET_PERMS: u32 = 0o666;

/// Errors of message construction and reassembly.
#[derive(Debug)]
pub enum MessageError {
    /// The target path has no final file-name segment.
    NoFileName,
    /// A source file could not be opened.
    OpenFile { path: String, msg: String },
    /// A source file could not be read.
    ReadFile { path: String, msg: String },
    /// Compression of the source bytes failed.
    Compress { path: String, msg: String },
    /// Reassembly was attempted from an empty chunk set.
    NoChunks,
    /// Reassembly was attempted from a chunk set whose size differs
    /// from the chunk count recorded on its lowest-id chunk.
    WrongNumberOfChunks { expected: u64, actual: u64 },
}

/// A whole file, compressed, as it travels on the wire.
#[derive(Debug, Clone)]
pub struct CompressedWireFile {
    pub filename: String,
    pub zstd_compressed_data: Vec<u8>,
}

/// One window of a compressed file, as it travels on the wire.
#[derive(Debug, Clone)]
pub struct CompressedWireFileChunk {
    pub filename: String,
    pub chunk_id: u64,
    pub num_chunks: u64,
    pub zstd_compressed_data_chunk: Vec<u8>,
}

/// `s` with every trailing `/` and every trailing lone-`.` path
/// segment removed, one character at a time: a final `.` is dropped
/// exactly when it is a whole segment (preceded by `/` or standing
/// alone), so names such as `x.` or `..` stay.
pub open spec fn spec_strip_dot_segments(s: Seq<char>) -> Seq<char>
    decreases s.len(),
{
    if s.len() == 0 {
        s
    } else if s.last() == '/' {
        spec_strip_dot_segments(s.drop_last())
    } else if s.last() == '.' && (s.len() == 1 || s[s.len() - 2] == '/') {
        spec_strip_dot_segments(s.drop_last())
    } else {
        s
    }
}

/// The maximal suffix of `s` that holds no `/`.
pub open spec fn spec_last_segment(s: Seq<char>) -> Seq<char>
    decreases s.len(),
{
    if s.len() == 0 {
        Seq::empty()
    } else if s.last() == '/' {
        Seq::empty()
    } else {
        spec_last_segment(s.drop_last()).push(s.last())
    }
}

/// The file name a `/`-separated path designates: its final segment,
/// ignoring trailing slashes and trailing `.` segments (so `a/b/.`
/// names `b`).  `None` when no segment remains or the last one is
/// `..`.
pub open spec fn spec_file_name(path: Seq<char>) -> Option<Seq<char>> {
    let seg = spec_last_segment(spec_strip_dot_segments(path));
    if seg.len() == 0 || seg == seq!['.', '.'] {
        None
    } else {
        Some(seg)
    }
}

/// Extracts the file name designated by a `/`-separated path, per
/// [`spec_file_name`].
pub fn file_name_from_path(target_path: &String) -> (r: Result<String, MessageError>)
    ensures
        spec_file_name(target_path@) is Some ==> r is Ok && r->Ok_0@ == spec_file_name(
            target_path@,
        )->Some_0,
        spec_file_name(target_path@) is None ==> r == Err::<String, MessageError>(
            MessageError::NoFileName,
        ),
{
    let s = target_path.as_str();
    let n: usize = s.unicode_len();
    let mut j: usize = n;
    proof {
        assert(target_path@.take(n as int) =~= target_path@);
    }
    while j > 0 && (s.get_char(j - 1) == '/' || (s.get_char(j - 1) == '.' && (j == 1 || s.get_char(
        j - 2,
    ) == '/')))
        invariant
            0 <= j <= n,
            n == target_path@.len(),
            s@ == target_path@,
            spec_strip_dot_segments(target_path@) == spec_strip_dot_segments(
                target_path@.take(j as int),
            ),
        decreases j,
    {
        proof {
            assert(target_path@.take(j as int).last() == target_path@[j - 1]);
            if j >= 2 {
                assert(target_path@.take(j as int)[j - 2] == target_path@[j - 2]);
            }
            assert(target_path@.take(j as int).drop_last() =~= target_path@.take(j - 1));
        }
        j = j - 1;
    }
    proof {
        // the stripped path is exactly the first j characters
        if j > 0 {
            assert(target_path@.take(j as int).last() == target_path@[j - 1]);
            if j >= 2 {
                assert(target_path@.take(j as int)[j - 2] == target_path@[j - 2]);
            }
        }
        assert(spec_strip_dot_segments(target_path@) == target_path@.take(j as int));
    }
    let ghost stripped = target_path@.take(j as int);
    let mut i: usize = j;
    while i > 0 && s.get_char(i - 1) != '/'
        invariant
            0 <= i <= j <= n,
            n == target_path@.len(),
            s@ == target_path@,
            spec_last_segment(stripped) == spec_last_segment(target_path@.take(i as int))
                + target_path@.subrange(i as int, j as int),
        decreases i,
    {
        proof {
            assert(target_path@.take(i as int).last() == target_path@[i - 1]);
            assert(target_path@.take(i as int).drop_last() =~= target_path@.take(i - 1));
            assert(spec_last_segment(target_path@.take(i as int)) == spec_last_segment(
                target_path@.take(i - 1),
            ).push(target_path@[i - 1]));
            assert(spec_last_segment(target_path@.take(i - 1)).push(target_path@[i - 1])
                + target_path@.subrange(i as int, j as int) =~= spec_last_segment(
                target_path@.take(i - 1),
            ) + target_path@.subrange(i - 1, j as int));
        }
        i = i - 1;
    }
    proof {
        if i == 0 {
            assert(target_path@.take(0) =~= Seq::<char>::empty());
            assert(spec_last_segment(Seq::<char>::empty()) =~= Seq::<char>::empty());
        } else {
            assert(target_path@.take(i as int).last() == target_path@[i - 1]);
        }
        assert(Seq::<char>::empty() + target_path@.subrange(i as int, j as int)
            =~= target_path@.subrange(i as int, j as int));
        assert(spec_last_segment(stripped) == target_path@.subrange(i as int, j as int));
    }
    if i == j {
        return Err(MessageError::NoFileName);
    }
    if j - i == 2 && s.get_char(i) == '.' && s.get_char(i + 1) == '.' {
        proof {
            assert(spec_last_segment(stripped) =~= seq!['.', '.']);
        }
        return Err(MessageError::NoFileName);
    }
    proof {
        if spec_last_segment(stripped) == seq!['.', '.'] {
            assert(target_path@.subrange(i as int, j as int).len() == 2);
            assert(target_path@.subrange(i as int, j as int)[0] == target_path@[i as int]);
            assert(target_path@.subrange(i as int, j as int)[1] == target_path@[i + 1]);
            assert(seq!['.', '.'][0] == '.');
            assert(seq!['.', '.'][1] == '.');
            assert(target_path@[i as int] == '.');
            assert(target_path@[i + 1] == '.');
        }
    }
    let segment = s.substring_char(i, j);
    Ok(segment.to_owned())
}

/// Number of windows of size `chunk_size` needed to cover `len` bytes:
/// the ceiling of `len / chunk_size`.
pub open spec fn spec_num_chunks(len: int, chunk_size: int) -> int
    recommends
        chunk_size >= 1,
{
    if len == 0 {
        0
    } else {
        (len - 1) / chunk_size + 1
    }
}

/// The bytes of the `i`-th window of `data` under window size `chunk_size`.
pub open spec fn spec_chunk_slice(data: Seq<u8>, chunk_size: int, i: int) -> Seq<u8>
    recommends
        chunk_size >= 1,
        0 <= i < spec_num_chunks(data.len() as int, chunk_size),
{
    data.subrange(
        i * chunk_size,
        if (i + 1) * chunk_size <= data.len() {
            (i + 1) * chunk_size
        } else {
            data.len() as int
        },
    )
}

/// `chunks` is exactly the chunking of `data` (named `filename`) into
/// windows of `chunk_size` bytes: every field of every chunk is pinned.
pub open spec fn is_chunking_of(
    chunks: Seq<CompressedWireFileChunk>,
    filename: Seq<char>,
    data: Seq<u8>,
    chunk_size: int,
) -> bool {
    &&& chunks.len() == spec_num_chunks(data.len() as int, chunk_size)
    &&& forall|i: int|
        0 <= i < chunks.len() ==> {
            &&& (#[trigger] chunks[i]).filename@ == filename
            &&& chunks[i].chunk_id == i
            &&& chunks[i].num_chunks == chunks.len()
            &&& chunks[i].zstd_compressed_data_chunk@ == spec_chunk_slice(data, chunk_size, i)
        }
}

/// The window count is large enough to cover the data and (when the
/// data is not empty) small enough that every window but possibly the
/// last starts strictly inside the data.
proof fn lemma_num_chunks_bounds(len: int, chunk_size: int)
    requires
        len >= 0,
        chunk_size >= 1,
    ensures
        spec_num_chunks(len, chunk_size) * chunk_size >= len,
        len > 0 ==> (spec_num_chunks(len, chunk_size) - 1) * chunk_size < len,
        len > 0 ==> spec_num_chunks(len, chunk_size) >= 1,
{
    if len > 0 {
        let q = (len - 1) / chunk_size;
        let r = (len - 1) % chunk_size;
        vstd::arithmetic::div_mod::lemma_fundamental_div_mod(len - 1, chunk_size);
        assert(len - 1 == chunk_size * q + r);
        assert((q + 1) * chunk_size == chunk_size * q + chunk_size) by (nonlinear_arith);
        assert(q * chunk_size == chunk_size * q) by (nonlinear_arith);
    }
}

/// Copies `data[start..end]` into a fresh vector.
fn copy_byte_range(data: &Vec<u8>, start: usize, end: usize) -> (out: Vec<u8>)
    requires
        start <= end <= data.len(),
    ensures
        out@ == data@.subrange(start as int, end as int),
{
    let mut out: Vec<u8> = Vec::new();
    let mut j: usize = start;
    while j < end
        invariant
            start <= j <= end <= data.len(),
            out@ == data@.subrange(start as int, j as int),
        decreases end - j,
    {
        out.push(data[j]);
        assert(data@.subrange(start as int, j + 1 as int)
            == data@.subrange(start as int, j as int).push(data@[j as int]));
        j = j + 1;
    }
    out
}

/// A client-side put-file invocation: which local file to send and
/// where it lands on the host running the agent.
#[derive(Clone, Debug)]
pub struct PutFile {
    pub source_file: String,
    pub target_path: String,
}

/// A request to start a service on the host running the agent.
#[derive(Clone, Debug)]
pub struct StartServiceRequest {
    /// Optional wrapper command the service is started under (a
    /// debugger or profiler).
    pub wrapper: Option<String>,
}

#[derive(Debug)]
pub enum StartServiceResponse {
    Success,
    Restarted,
    Error,
}

/// A request to stop a service on the host running the agent.
#[derive(Clone, Debug)]
pub struct StopServiceRequest {
    pub service: String,
}

#[derive(Debug)]
pub enum StopServiceResponse {
    Success,
    Restarted,
    Error,
}

/// A request to fetch a file from the host running the agent.
#[derive(Clone, Debug)]
pub struct FetchFileRequest {
    pub host_src_path: String,
    pub filename: String,
}

#[derive(Debug)]
pub enum FetchFileResponse {
    Success { file: CompressedWireFile },
    Error,
}

/// A staged update of the agent itself.
#[derive(Debug)]
pub struct AgentUpdateRequest {
    pub new_version: u32,
    pub dist_tarball: CompressedWireFile,
}

#[derive(Debug)]
pub enum AgentUpdateResponse {
    Success { old_version: u32, new_version: u32, new_pid: u16 },
}

/// A request to push a whole file to the host running the agent.
#[derive(Debug)]
pub struct PutFileRequest {
    pub target_perms: u32,
    pub target_path: String,
    pub file: CompressedWireFile,
}

#[derive(Debug, PartialEq, Eq, Structural)]
pub enum PutFileResponse {
    Success,
    Error,
}

/// A request to push one chunk of a file to the host running the
/// agent.  Every chunk of one transfer carries the same content hash
/// of the whole compressed payload, the same target path and the same
/// permissions.
#[derive(Clone, Debug)]
pub struct PutFileChunkRequest {
    pub file_hash: [u8; 32],
    pub target_perms: u32,
    pub target_path: String,
    pub chunk: CompressedWireFileChunk,
}

impl PutFileChunkRequest {
    pub fn new(
        file_hash: [u8; 32],
        target_perms: u32,
        target_path: String,
        chunk: CompressedWireFileChunk,
    ) -> (r: PutFileChunkRequest)
        ensures
            r.file_hash == file_hash,
            r.target_perms == target_perms,
            r.target_path == target_path,
            r.chunk == chunk,
    {
        PutFileChunkRequest { file_hash, target_perms, target_path, chunk }
    }
}

/// The outcome of putting one file chunk.
#[derive(Debug, PartialEq, Eq, Structural)]
pub enum PutFileChunkResponse {
    /// This chunk completed the transfer and the reassembled file
    /// passed the content-hash check.
    Complete { chunk_id: u64 },
    /// The chunk was recorded; the transfer is still short of chunks.
    Progress { chunk_id: u64, seen_chunks: u64 },
    /// Reassembly or the content-hash check failed.
    Error { chunk_id: u64 },
    /// A chunk with this id was already recorded; the state of the
    /// transfer is unchanged.
    Duplicate { chunk_id: u64 },
}

/// Stable insertion of `c` into `s`, ordered by `chunk_id`: `c` lands
/// after every element whose id is less than or equal to its own.
pub open spec fn spec_insert_by_id(
    c: CompressedWireFileChunk,
    s: Seq<CompressedWireFileChunk>,
) -> Seq<CompressedWireFileChunk>
    decreases s.len(),
{
    if s.len() == 0 {
        seq![c]
    } else if c.chunk_id < s[0].chunk_id {
        seq![c] + s
    } else {
        seq![s[0]] + spec_insert_by_id(c, s.drop_first())
    }
}

/// Stable insertion sort of a chunk sequence by `chunk_id`.
pub open spec fn spec_sort_by_id(s: Seq<CompressedWireFileChunk>) -> Seq<CompressedWireFileChunk>
    decreases s.len(),
{
    if s.len() == 0 {
        Seq::empty()
    } else {
        spec_insert_by_id(s.last(), spec_sort_by_id(s.drop_last()))
    }
}

/// The payload bytes of the chunks of `s`, concatenated in sequence order.
pub open spec fn spec_concat_chunk_data(s: Seq<CompressedWireFileChunk>) -> Seq<u8>
    decreases s.len(),
{
    if s.len() == 0 {
        Seq::empty()
    } else {
        s[0].zstd_compressed_data_chunk@ + spec_concat_chunk_data(s.drop_first())
    }
}

pub proof fn lemma_insert_by_id_len(c: CompressedWireFileChunk, s: Seq<CompressedWireFileChunk>)
    ensures
        spec_insert_by_id(c, s).len() == s.len() + 1,
    decreases s.len(),
{
    if s.len() > 0 && !(c.chunk_id < s[0].chunk_id) {
        lemma_insert_by_id_len(c, s.drop_first());
    }
}

pub proof fn lemma_sort_by_id_len(s: Seq<CompressedWireFileChunk>)
    ensures
        spec_sort_by_id(s).len() == s.len(),
    decreases s.len(),
{
    if s.len() > 0 {
        lemma_sort_by_id_len(s.drop_last());
        lemma_insert_by_id_len(s.last(), spec_sort_by_id(s.drop_last()));
    }
}

/// Where the insertion lands: if every element before `idx` has an id
/// at most `c`'s and the element at `idx` (if any) has a greater id,
/// then inserting `c` splits `s` exactly at `idx`.
proof fn lemma_insert_by_id_at(
    c: CompressedWireFileChunk,
    s: Seq<CompressedWireFileChunk>,
    idx: int,
)
    requires
        0 <= idx <= s.len(),
        forall|j: int| 0 <= j < idx ==> (#[trigger] s[j]).chunk_id <= c.chunk_id,
        idx < s.len() ==> c.chunk_id < s[idx].chunk_id,
    ensures
        spec_insert_by_id(c, s) == s.take(idx) + seq![c] + s.skip(idx),
    decreases idx,
{
    if idx == 0 {
        if s.len() == 0 {
            assert(spec_insert_by_id(c, s) =~= s.take(0) + seq![c] + s.skip(0));
        } else {
            assert(spec_insert_by_id(c, s) =~= s.take(0) + seq![c] + s.skip(0));
        }
    } else {
        lemma_insert_by_id_at(c, s.drop_first(), idx - 1);
        assert(s.drop_first().take(idx - 1) =~= s.take(idx).drop_first());
        assert(s.drop_first().skip(idx - 1) =~= s.skip(idx));
        assert(seq![s[0]] + (s.drop_first().take(idx - 1) + seq![c] + s.drop_first().skip(idx - 1))
            =~= s.take(idx) + seq![c] + s.skip(idx));
    }
}

proof fn lemma_concat_chunk_data_singleton(c: CompressedWireFileChunk)
    ensures
        spec_concat_chunk_data(seq![c]) == c.zstd_compressed_data_chunk@,
{
    assert(seq![c].drop_first() =~= Seq::<CompressedWireFileChunk>::empty());
    assert(spec_concat_chunk_data(seq![c]) =~= c.zstd_compressed_data_chunk@
        + spec_concat_chunk_data(Seq::<CompressedWireFileChunk>::empty()));
    assert(c.zstd_compressed_data_chunk@ + Seq::<u8>::empty()
        =~= c.zstd_compressed_data_chunk@);
}

/// Concatenation of chunk payloads distributes over sequence append.
pub proof fn lemma_concat_chunk_data_append(
    a: Seq<CompressedWireFileChunk>,
    b: Seq<CompressedWireFileChunk>,
)
    ensures
        spec_concat_chunk_data(a + b) == spec_concat_chunk_data(a) + spec_concat_chunk_data(b),
    decreases a.len(),
{
    if a.len() == 0 {
        assert(a + b =~= b);
        assert(spec_concat_chunk_data(a) + spec_concat_chunk_data(b)
            =~= spec_concat_chunk_data(b));
    } else {
        assert((a + b).drop_first() =~= a.drop_first() + b);
        lemma_concat_chunk_data_append(a.drop_first(), b);
        assert(spec_concat_chunk_data(a + b) =~= spec_concat_chunk_data(a)
            + spec_concat_chunk_data(b));
    }
}

/// Inserts `c` into the already-sorted `out`, keeping the `chunk_id`
/// order and placing `c` after any equal ids.
fn insert_chunk_sorted(out: &mut Vec<CompressedWireFileChunk>, c: CompressedWireFileChunk)
    ensures
        final(out)@ == spec_insert_by_id(c, old(out)@),
{
    let ghost c0 = c;
    let mut idx: usize = 0;
    while idx < out.len() && out[idx].chunk_id <= c.chunk_id
        invariant
            0 <= idx <= out.len(),
            out@ == old(out)@,
            c == c0,
            forall|j: int| 0 <= j < idx ==> (#[trigger] out@[j]).chunk_id <= c.chunk_id,
        decreases out.len() - idx,
    {
        idx = idx + 1;
    }
    proof {
        lemma_insert_by_id_at(c, out@, idx as int);
    }
    out.insert(idx, c);
    assert(out@ =~= old(out)@.take(idx as int) + seq![c0] + old(out)@.skip(idx as int));
}

/// Sorts chunks by `chunk_id` (stable insertion sort).
fn sort_chunks_by_id(chunks: Vec<CompressedWireFileChunk>) -> (sorted: Vec<
    CompressedWireFileChunk,
>)
    ensures
        sorted@ == spec_sort_by_id(chunks@),
{
    let ghost orig = chunks@;
    let mut rest = chunks;
    let mut out: Vec<CompressedWireFileChunk> = Vec::new();
    let ghost mut k: int = 0;
    while rest.len() > 0
        invariant
            0 <= k <= orig.len(),
            rest@ == orig.skip(k),
            out@ == spec_sort_by_id(orig.take(k)),
        decreases rest.len(),
    {
        let c = rest.remove(0);
        assert(c == orig[k]);
        assert(rest@ =~= orig.skip(k + 1));
        insert_chunk_sorted(&mut out, c);
        proof {
            assert(orig.take(k + 1).drop_last() =~= orig.take(k));
            assert(orig.take(k + 1).last() == orig[k]);
            k = k + 1;
        }
    }
    proof {
        assert(orig.take(orig.len() as int) =~= orig);
    }
    out
}

impl CompressedWireFile {
    /// Build a file from a list of chunks.
    ///
    /// The chunks are ordered by `chunk_id` and their payloads
    /// concatenated; the filename is taken from the lowest-id chunk.
    /// An empty set is rejected, as is a set whose size differs from
    /// the chunk count recorded on its lowest-id chunk.
    pub fn from_chunks(chunks: Vec<CompressedWireFileChunk>) -> (r: Result<
        CompressedWireFile,
        MessageError,
    >)
        ensures
            chunks@.len() == 0 ==> r == Err::<CompressedWireFile, MessageError>(
                MessageError::NoChunks,
            ),
            chunks@.len() > 0 && chunks@.len() != spec_sort_by_id(chunks@)[0].num_chunks ==> r
                == Err::<CompressedWireFile, MessageError>(
                MessageError::WrongNumberOfChunks {
                    expected: spec_sort_by_id(chunks@)[0].num_chunks,
                    actual: chunks@.len() as u64,
                },
            ),
            chunks@.len() > 0 && chunks@.len() == spec_sort_by_id(chunks@)[0].num_chunks ==> {
                &&& r is Ok
                &&& r->Ok_0.filename@ == spec_sort_by_id(chunks@)[0].filename@
                &&& r->Ok_0.zstd_compressed_data@ == spec_concat_chunk_data(
                    spec_sort_by_id(chunks@),
                )
            },
    {
        let ghost orig = chunks@;
        let sorted = sort_chunks_by_id(chunks);
        proof {
            lemma_sort_by_id_len(orig);
        }
        if sorted.len() == 0 {
            return Err(MessageError::NoChunks);
        }
        let actual: u64 = sorted.len() as u64;
        if actual != sorted[0].num_chunks {
            return Err(
                MessageError::WrongNumberOfChunks { expected: sorted[0].num_chunks, actual },
            );
        }
        let mut zstd_compressed_data: Vec<u8> = Vec::new();
        let mut i: usize = 0;
        while i < sorted.len()
            invariant
                0 <= i <= sorted@.len(),
                sorted@ == spec_sort_by_id(orig),
                zstd_compressed_data@ == spec_concat_chunk_data(sorted@.take(i as int)),
            decreases sorted.len() - i,
        {
            let mut j: usize = 0;
            let n: usize = sorted[i].zstd_compressed_data_chunk.len();
            while j < n
                invariant
                    0 <= i < sorted@.len(),
                    0 <= j <= n,
                    n == sorted@[i as int].zstd_compressed_data_chunk@.len(),
                    zstd_compressed_data@ == spec_concat_chunk_data(sorted@.take(i as int))
                        + sorted@[i as int].zstd_compressed_data_chunk@.take(j as int),
                decreases n - j,
            {
                zstd_compressed_data.push(sorted[i].zstd_compressed_data_chunk[j]);
                assert(sorted@[i as int].zstd_compressed_data_chunk@.take(j + 1 as int)
                    =~= sorted@[i as int].zstd_compressed_data_chunk@.take(j as int).push(
                    sorted@[i as int].zstd_compressed_data_chunk@[j as int],
                ));
                j = j + 1;
            }
            proof {
                assert(sorted@[i as int].zstd_compressed_data_chunk@.take(n as int)
                    =~= sorted@[i as int].zstd_compressed_data_chunk@);
                assert(sorted@.take(i + 1 as int) =~= sorted@.take(i as int) + seq![
                    sorted@[i as int],
                ]);
                lemma_concat_chunk_data_append(sorted@.take(i as int), seq![sorted@[i as int]]);
                lemma_concat_chunk_data_singleton(sorted@[i as int]);
            }
            i = i + 1;
        }
        proof {
            assert(sorted@.take(sorted@.len() as int) =~= sorted@);
        }
        let filename = sorted[0].filename.clone();
        assert(filename@ == spec_sort_by_id(orig)[0].filename@);
        Ok(CompressedWireFile { filename, zstd_compressed_data })
    }

    /// Turn a loaded file into a set of chunks for transmission.
    ///
    /// The compressed bytes are cut into consecutive windows of
    /// `chunk_size` bytes (the last window keeps whatever remains);
    /// chunk ids count up from 0 in window order, and every chunk
    /// carries the same filename and total count.
    pub fn into_chunks_with_size(&self, chunk_size: usize) -> (chunks: Vec<
        CompressedWireFileChunk,
    >)
        requires
            chunk_size >= 1,
        ensures
            is_chunking_of(
                chunks@,
                self.filename@,
                self.zstd_compressed_data@,
                chunk_size as int,
            ),
    {
        let data = &self.zstd_compressed_data;
        let len: usize = data.len();
        let num_chunks: usize = if len == 0 {
            0
        } else {
            (len - 1) / chunk_size + 1
        };
        proof {
            lemma_num_chunks_bounds(len as int, chunk_size as int);
        }
        let mut chunks: Vec<CompressedWireFileChunk> = Vec::new();
        let mut i: usize = 0;
        let mut pos: usize = 0;
        while pos < len
            invariant
                chunk_size >= 1,
                len == self.zstd_compressed_data@.len(),
                data == &self.zstd_compressed_data,
                num_chunks == spec_num_chunks(len as int, chunk_size as int),
                num_chunks * chunk_size >= len,
                0 <= i <= num_chunks,
                i < num_chunks ==> pos == i * chunk_size && pos < len,
                i == num_chunks ==> pos >= len,
                chunks@.len() == i,
                forall|k: int|
                    0 <= k < i ==> {
                        &&& (#[trigger] chunks@[k]).filename@ == self.filename@
                        &&& chunks@[k].chunk_id == k
                        &&& chunks@[k].num_chunks == num_chunks
                        &&& chunks@[k].zstd_compressed_data_chunk@ == spec_chunk_slice(
                            self.zstd_compressed_data@,
                            chunk_size as int,
                            k,
                        )
                    },
            decreases len - pos,
        {
            let end: usize = if len - pos > chunk_size {
                pos + chunk_size
            } else {
                len
            };
            proof {
                assert(i < num_chunks);
                assert((i + 1) * chunk_size == i * chunk_size + chunk_size) by (nonlinear_arith);
            }
            let piece = copy_byte_range(data, pos, end);
            chunks.push(
                CompressedWireFileChunk {
                    filename: self.filename.clone(),
                    chunk_id: i as u64,
                    num_chunks: num_chunks as u64,
                    zstd_compressed_data_chunk: piece,
                },
            );
            proof {
                if end < len {
                    // another full window follows; show i + 1 is still short of the count
                    assert((i + 1) * chunk_size < len);
                    lemma_num_chunks_bounds(len as int, chunk_size as int);
                    assert((num_chunks - 1) * chunk_size < len);
                    if i + 1 >= num_chunks {
                        assert(num_chunks * chunk_size >= len);
                        assert((i + 1) * chunk_size >= num_chunks * chunk_size) by (nonlinear_arith)
                            requires
                                i + 1 >= num_chunks,
                                chunk_size >= 1,
                        ;
                    }
                } else {
                    // the data is exhausted: i + 1 windows cover it
                    assert(len <= (i + 1) * chunk_size);
                    if i + 1 < num_chunks {
                        lemma_num_chunks_bounds(len as int, chunk_size as int);
                        assert((num_chunks - 1) * chunk_size < len);
                        assert((i + 1) * chunk_size <= (num_chunks - 1) * chunk_size)
                            by (nonlinear_arith)
                            requires
                                i + 1 <= num_chunks - 1,
                                chunk_size >= 1,
                        ;
                    }
                }
            }
            i = i + 1;
            pos = end;
        }
        proof {
            if len == 0 {
            } else {
                assert(i == num_chunks);
            }
        }
        chunks
    }
}

/// Inserting an element whose id is at least every id in `s` appends it.
proof fn lemma_insert_by_id_all_leq(c: CompressedWireFileChunk, s: Seq<CompressedWireFileChunk>)
    requires
        forall|j: int| 0 <= j < s.len() ==> (#[trigger] s[j]).chunk_id <= c.chunk_id,
    ensures
        spec_insert_by_id(c, s) == s.push(c),
    decreases s.len(),
{
    if s.len() == 0 {
        assert(spec_insert_by_id(c, s) =~= s.push(c));
    } else {
        lemma_insert_by_id_all_leq(c, s.drop_first());
        assert(seq![s[0]] + s.drop_first().push(c) =~= s.push(c));
    }
}

/// Sorting a sequence whose ids already increase strictly leaves it
/// unchanged.
pub proof fn lemma_sort_by_id_of_sorted(s: Seq<CompressedWireFileChunk>)
    requires
        forall|i: int, j: int|
            0 <= i < j < s.len() ==> (#[trigger] s[i]).chunk_id < (#[trigger] s[j]).chunk_id,
    ensures
        spec_sort_by_id(s) == s,
    decreases s.len(),
{
    if s.len() > 0 {
        let front = s.drop_last();
        assert forall|i: int, j: int|
            0 <= i < j < front.len() implies (#[trigger] front[i]).chunk_id < (
        #[trigger] front[j]).chunk_id by {
            assert(front[i] == s[i]);
            assert(front[j] == s[j]);
        }
        lemma_sort_by_id_of_sorted(front);
        assert forall|j: int|
            0 <= j < front.len() implies (#[trigger] front[j]).chunk_id <= s.last().chunk_id by {
            assert(front[j] == s[j]);
        }
        lemma_insert_by_id_all_leq(s.last(), front);
        assert(front.push(s.last()) =~= s);
    }
}

/// The first `m` chunks of a chunking concatenate to the first
/// `m * chunk_size` bytes of the data (capped at the data's length).
#[verifier::rlimit(100)]
#[verifier::spinoff_prover]
proof fn lemma_concat_chunk_prefix(
    chunks: Seq<CompressedWireFileChunk>,
    filename: Seq<char>,
    data: Seq<u8>,
    chunk_size: int,
    m: int,
)
    requires
        chunk_size >= 1,
        is_chunking_of(chunks, filename, data, chunk_size),
        0 <= m <= chunks.len(),
    ensures
        spec_concat_chunk_data(chunks.take(m)) == data.subrange(
            0,
            if m * chunk_size <= data.len() {
                m * chunk_size
            } else {
                data.len() as int
            },
        ),
    decreases m,
{
    let len = data.len() as int;
    let n = chunks.len() as int;
    if m == 0 {
        assert(chunks.take(0) =~= Seq::<CompressedWireFileChunk>::empty());
        assert(spec_concat_chunk_data(chunks.take(0)) =~= data.subrange(0, 0));
    } else {
        let prev = (m - 1) * chunk_size;
        let hi = if m * chunk_size <= len {
            m * chunk_size
        } else {
            len
        };
        lemma_concat_chunk_prefix(chunks, filename, data, chunk_size, m - 1);
        lemma_num_chunks_bounds(len, chunk_size);
        // the (m-1)-th window starts strictly inside the data
        assert(prev <= (n - 1) * chunk_size) by (nonlinear_arith)
            requires
                prev == (m - 1) * chunk_size,
                m - 1 <= n - 1,
                chunk_size >= 1,
        ;
        assert(prev < len);
        assert(m * chunk_size == prev + chunk_size) by (nonlinear_arith)
            requires
                prev == (m - 1) * chunk_size,
        ;
        assert(spec_concat_chunk_data(chunks.take(m - 1)) == data.subrange(0, prev));
        assert(chunks[m - 1].zstd_compressed_data_chunk@ == spec_chunk_slice(
            data,
            chunk_size,
            m - 1,
        ));
        assert(spec_chunk_slice(data, chunk_size, m - 1) == data.subrange(prev, hi)) by {
            assert(((m - 1) + 1) * chunk_size == m * chunk_size);
        }
        assert(chunks.take(m) =~= chunks.take(m - 1) + seq![chunks[m - 1]]);
        lemma_concat_chunk_data_append(chunks.take(m - 1), seq![chunks[m - 1]]);
        lemma_concat_chunk_data_singleton(chunks[m - 1]);
        assert(spec_concat_chunk_data(chunks.take(m)) == data.subrange(0, prev) + data.subrange(
            prev,
            hi,
        ));
        assert(data.subrange(0, prev) + data.subrange(prev, hi) =~= data.subrange(0, hi));
        assert(spec_concat_chunk_data(chunks.take(m)) == data.subrange(0, hi));
    }
}

/// Chunk/reassemble round trip: the chunking of a non-empty payload
/// is already in chunk-id order, its size matches the recorded total,
/// and its payloads concatenate back to the original bytes — so
/// reassembly (see [`CompressedWireFile::from_chunks`]) returns the
/// original file exactly.
pub proof fn lemma_chunk_reassemble_roundtrip(
    chunks: Seq<CompressedWireFileChunk>,
    filename: Seq<char>,
    data: Seq<u8>,
    chunk_size: int,
)
    requires
        chunk_size >= 1,
        data.len() >= 1,
        is_chunking_of(chunks, filename, data, chunk_size),
    ensures
        chunks.len() >= 1,
        spec_sort_by_id(chunks) == chunks,
        chunks[0].num_chunks == chunks.len(),
        chunks[0].filename@ == filename,
        spec_concat_chunk_data(chunks) == data,
{
    let len = data.len() as int;
    let n = chunks.len() as int;
    lemma_num_chunks_bounds(len, chunk_size);
    lemma_sort_by_id_of_sorted(chunks);
    lemma_concat_chunk_prefix(chunks, filename, data, chunk_size, n);
    assert(n * chunk_size >= len);
    assert(chunks.take(n) =~= chunks);
    assert(data.subrange(0, len) =~= data);
}

/// Sorting recovers the unique strictly-id-ordered arrangement of any
/// multiset of chunks: arrival order cannot matter.
pub proof fn lemma_sort_by_id_of_permutation(
    s: Seq<CompressedWireFileChunk>,
    t: Seq<CompressedWireFileChunk>,
)
    requires
        s.to_multiset() == t.to_multiset(),
        forall|i: int, j: int|
            0 <= i < j < t.len() ==> (#[trigger] t[i]).chunk_id < (#[trigger] t[j]).chunk_id,
    ensures
        spec_sort_by_id(s) == t,
    decreases s.len(),
{
    broadcast use vstd::seq_lib::group_to_multiset_ensures;

    assert(s.len() == s.to_multiset().len());
    assert(t.len() == t.to_multiset().len());
    if s.len() == 0 {
        assert(spec_sort_by_id(s) =~= t);
    } else {
        let x = s.last();
        let front = s.drop_last();
        assert(s =~= front.push(x));
        assert(s.to_multiset() =~= front.to_multiset().insert(x));
        assert(t.to_multiset().count(x) > 0) by {
            assert(s.to_multiset().count(x) >= front.to_multiset().count(x) + 1);
        }
        assert(t.contains(x));
        let p = choose|p: int| 0 <= p < t.len() && t[p] == x;
        let t2 = t.remove(p);
        assert(t2.to_multiset() =~= t.to_multiset().remove(x));
        assert(front.to_multiset() =~= t2.to_multiset()) by {
            assert forall|a: CompressedWireFileChunk|
                front.to_multiset().count(a) == t2.to_multiset().count(a) by {
                assert(s.to_multiset().count(a) == front.to_multiset().insert(x).count(a));
                assert(t2.to_multiset().count(a) == t.to_multiset().remove(x).count(a));
            }
        }
        assert(t2 =~= t.take(p) + t.skip(p + 1));
        assert forall|i: int, j: int|
            0 <= i < j < t2.len() implies (#[trigger] t2[i]).chunk_id < (
        #[trigger] t2[j]).chunk_id by {
            let i0 = if i < p {
                i
            } else {
                i + 1
            };
            let j0 = if j < p {
                j
            } else {
                j + 1
            };
            assert(t2[i] == t[i0]);
            assert(t2[j] == t[j0]);
        }
        lemma_sort_by_id_of_permutation(front, t2);
        assert forall|j: int| 0 <= j < p implies (#[trigger] t2[j]).chunk_id <= x.chunk_id by {
            assert(t2[j] == t[j]);
            assert(t[j].chunk_id < t[p].chunk_id);
        }
        if p < t2.len() {
            assert(t2[p] == t[p + 1]);
            assert(t[p].chunk_id < t[p + 1].chunk_id);
        }
        lemma_insert_by_id_at(x, t2, p);
        assert(t2.take(p) =~= t.take(p));
        assert(t2.skip(p) =~= t.skip(p + 1));
        assert(t.take(p) + seq![x] + t.skip(p + 1) =~= t);
    }
}

/// Completion is order-independent: any arrival order of the chunks
/// of a non-empty payload reassembles to the original bytes.
pub proof fn lemma_reassembly_order_independent(
    received: Seq<CompressedWireFileChunk>,
    chunks: Seq<CompressedWireFileChunk>,
    filename: Seq<char>,
    data: Seq<u8>,
    chunk_size: int,
)
    requires
        chunk_size >= 1,
        data.len() >= 1,
        is_chunking_of(chunks, filename, data, chunk_size),
        received.to_multiset() == chunks.to_multiset(),
    ensures
        spec_sort_by_id(received) == chunks,
        received.len() == chunks.len(),
        spec_concat_chunk_data(spec_sort_by_id(received)) == data,
        spec_sort_by_id(received)[0].filename@ == filename,
        spec_sort_by_id(received)[0].num_chunks == received.len(),
{
    broadcast use vstd::seq_lib::group_to_multiset_ensures;

    lemma_chunk_reassemble_roundtrip(chunks, filename, data, chunk_size);
    lemma_sort_by_id_of_permutation(received, chunks);
    assert(received.len() == received.to_multiset().len());
    assert(chunks.len() == chunks.to_multiset().len());
}

/// Hash integrity: reassembling the chunking of a payload yields
/// bytes whose content hash is the hash of the original payload.
pub proof fn lemma_hash_integrity(
    chunks: Seq<CompressedWireFileChunk>,
    filename: Seq<char>,
    data: Seq<u8>,
    chunk_size: int,
)
    requires
        chunk_size >= 1,
        data.len() >= 1,
        is_chunking_of(chunks, filename, data, chunk_size),
    ensures
        crate::hashing::blake3_of(spec_concat_chunk_data(spec_sort_by_id(chunks)))
            == crate::hashing::blake3_of(data),
{
    lemma_chunk_reassemble_roundtrip(chunks, filename, data, chunk_size);
}

impl CompressedWireFile {
    /// Generate the content hash of the compressed data.
    pub fn blake3_hash(&self) -> (digest: [u8; 32])
        ensures
            digest@ == blake3_of(self.zstd_compressed_data@),
    {
        blake3_hash_bytes(&self.zstd_compressed_data)
    }

    /// Compress the raw contents of a source file for the wire,
    /// naming the result after the final segment of `target_path`.
    /// Succeeds exactly when the target path yields a file name and
    /// compression of the bytes succeeds.
    ///
    /// `src_path` only labels errors; the bytes themselves are taken
    /// from `raw_contents`.
    pub fn compress_for_wire(
        src_path: &String,
        target_path: &String,
        raw_contents: &Vec<u8>,
    ) -> (r: Result<CompressedWireFile, MessageError>)
        ensures
            r is Ok <==> (spec_file_name(target_path@) is Some && zstd_compress_ok(
                raw_contents@,
                WIRE_COMPRESSION_LEVEL,
            )),
            spec_file_name(target_path@) is None ==> r == Err::<CompressedWireFile, MessageError>(
                MessageError::NoFileName,
            ),
            spec_file_name(target_path@) is Some ==> match r {
                Ok(file) => {
                    &&& file.filename@ == spec_file_name(target_path@)->Some_0
                    &&& file.zstd_compressed_data@ == zstd_compress_of(
                        raw_contents@,
                        WIRE_COMPRESSION_LEVEL,
                    )
                },
                Err(e) => e matches MessageError::Compress { path, msg: _ } && path@ == src_path@,
            },
    {
        let filename = file_name_from_path(target_path)?;
        match zstd_compress(raw_contents, WIRE_COMPRESSION_LEVEL) {
            Ok(zstd_compressed_data) => Ok(CompressedWireFile { filename, zstd_compressed_data }),
            Err(msg) => Err(MessageError::Compress { path: src_path.clone(), msg }),
        }
    }

    /// The decompressed payload, ready to be written to disk:
    /// succeeds exactly when the compressed bytes form a well-formed
    /// zstd frame.
    pub fn decompressed(&self) -> (r: Result<Vec<u8>, String>)
        ensures
            r is Ok <==> zstd_decompress_ok(self.zstd_compressed_data@),
            r is Ok ==> r->Ok_0@ == zstd_decompress_of(self.zstd_compressed_data@),
    {
        zstd_decompress(&self.zstd_compressed_data)
    }
}

impl PutFileRequest {
    /// Build a put-file request with default permissions from the raw
    /// contents of a source file, compressing them for the wire.
    /// Succeeds exactly when the target path yields a file name and
    /// compression of the bytes succeeds.
    pub fn new_with_default_perms(
        src_path: &String,
        target_path: &String,
        raw_contents: &Vec<u8>,
    ) -> (r: Result<PutFileRequest, MessageError>)
        ensures
            r is Ok <==> (spec_file_name(target_path@) is Some && zstd_compress_ok(
                raw_contents@,
                WIRE_COMPRESSION_LEVEL,
            )),
            spec_file_name(target_path@) is None ==> r == Err::<PutFileRequest, MessageError>(
                MessageError::NoFileName,
            ),
            spec_file_name(target_path@) is Some ==> match r {
                Ok(req) => {
                    &&& req.target_perms == DEFAULT_TARGET_PERMS
                    &&& req.target_path@ == target_path@
                    &&& req.file.filename@ == spec_file_name(target_path@)->Some_0
                    &&& req.file.zstd_compressed_data@ == zstd_compress_of(
                        raw_contents@,
                        WIRE_COMPRESSION_LEVEL,
                    )
                },
                Err(e) => e matches MessageError::Compress { path, msg: _ } && path@ == src_path@,
            },
    {
        let file = CompressedWireFile::compress_for_wire(src_path, target_path, raw_contents)?;
        Ok(
            PutFileRequest {
                target_perms: DEFAULT_TARGET_PERMS,
                target_path: target_path.clone(),
                file,
            },
        )
    }

    /// Split this request into independent per-chunk requests, each
    /// carrying the content hash of the whole compressed payload, the
    /// target path and the permissions.
    pub fn into_chunked_requests(&self, chunk_size: usize) -> (reqs: Vec<PutFileChunkRequest>)
        requires
            chunk_size >= 1,
        ensures
            is_chunking_of(
                reqs@.map_values(|q: PutFileChunkRequest| q.chunk),
                self.file.filename@,
                self.file.zstd_compressed_data@,
                chunk_size as int,
            ),
            forall|i: int|
                0 <= i < reqs@.len() ==> {
                    &&& (#[trigger] reqs@[i]).file_hash@ == blake3_of(
                        self.file.zstd_compressed_data@,
                    )
                    &&& reqs@[i].target_perms == self.target_perms
                    &&& reqs@[i].target_path@ == self.target_path@
                },
    {
        let file_hash = self.file.blake3_hash();
        let chunks = self.file.into_chunks_with_size(chunk_size);
        let ghost chunks_view = chunks@;
        let mut rest = chunks;
        let mut reqs: Vec<PutFileChunkRequest> = Vec::new();
        let ghost mut k: int = 0;
        while rest.len() > 0
            invariant
                0 <= k <= chunks_view.len(),
                rest@ == chunks_view.skip(k),
                reqs@.len() == k,
                forall|i: int|
                    0 <= i < k ==> {
                        &&& (#[trigger] reqs@[i]).chunk == chunks_view[i]
                        &&& reqs@[i].file_hash@ == blake3_of(self.file.zstd_compressed_data@)
                        &&& reqs@[i].target_perms == self.target_perms
                        &&& reqs@[i].target_path@ == self.target_path@
                    },
                file_hash@ == blake3_of(self.file.zstd_compressed_data@),
            decreases rest.len(),
        {
            let chunk = rest.remove(0);
            assert(chunk == chunks_view[k]);
            assert(rest@ =~= chunks_view.skip(k + 1));
            reqs.push(
                PutFileChunkRequest {
                    file_hash,
                    target_perms: self.target_perms,
                    target_path: self.target_path.clone(),
                    chunk,
                },
            );
            proof {
                k = k + 1;
            }
        }
        proof {
            assert(chunks_view.skip(chunks_view.len() as int) =~= Seq::<
                CompressedWireFileChunk,
            >::empty());
            assert(reqs@.map_values(|q: PutFileChunkRequest| q.chunk) =~= chunks_view);
        }
        reqs
    }
}

} // verus!
