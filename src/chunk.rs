//! The chunk table of one task: range splitting, scheduling of the next chunk,
//! completion and failure bookkeeping, resume records and the merge order.
use vstd::prelude::*;
use crate::error::DownloadError;
use crate::retry::RetryContext;
use crate::text::{escape_separators, padded4, push_escaped, push_padded4};

verus! {

/// One contiguous byte range of the target file (both ends inclusive).
#[derive(Clone, Copy, Debug, PartialEq, Eq, Structural)]
pub struct DownloadChunk {
    pub start: u64,
    pub end: u64,
    pub downloaded: u64,
    pub completed: bool,
}

/// Where a chunk stands: exactly one of pending, active, completed, failed.
#[derive(Clone, Copy, Debug, PartialEq, Eq, Structural)]
pub enum ChunkState {
    Pending,
    Active,
    Completed,
    Failed,
}

/// What the metadata probe learned about the remote file.
#[derive(Debug)]
pub struct FileInfo {
    pub size: u64,
    pub supports_range: bool,
    pub last_modified: Option<String>,
    pub etag: Option<String>,
}

/// The durable record that lets an interrupted chunked download continue.
#[derive(Debug)]
pub struct ResumeInfo {
    pub task_id: u128,
    pub url: String,
    pub file: String,
    /// Completed byte ranges, both ends inclusive.
    pub downloaded_chunks: Vec<(u64, u64)>,
    pub total_size: u64,
    pub last_modified: Option<String>,
    pub etag: Option<String>,
}

/// Counts of chunks by state.
#[derive(Clone, Copy, Debug, PartialEq, Eq, Structural)]
pub struct ChunkDownloadStats {
    pub total_chunks: usize,
    pub completed_chunks: usize,
    pub active_chunks: usize,
    pub failed_chunks: usize,
    pub pending_chunks: usize,
}

/// The chunk table of one task.
#[derive(Debug)]
pub struct ChunkedDownloadManager {
    pub chunks: Vec<DownloadChunk>,
    pub states: Vec<ChunkState>,
    pub total_size: u64,
    pub chunk_size: u64,
    pub temp_dir: String,
    pub file_name: String,
    pub max_concurrent_chunks: usize,
    pub retry_context: RetryContext,
}

/// Number of chunks of at most `cs` bytes that cover `total` bytes.
pub open spec fn num_chunks(total: nat, cs: nat) -> nat {
    if cs == 0 {
        0
    } else {
        ((total + cs - 1) / (cs as int)) as nat
    }
}

/// First byte of chunk `i`.
pub open spec fn chunk_start(i: nat, cs: nat) -> nat {
    i * cs
}

/// Last byte of chunk `i` (inclusive).
pub open spec fn chunk_end(i: nat, cs: nat, total: nat) -> int {
    if (i + 1) * cs <= total {
        (i + 1) * cs - 1
    } else {
        total - 1
    }
}

/// Number of bytes in a chunk.
pub open spec fn chunk_len(c: DownloadChunk) -> int {
    c.end - c.start + 1
}

/// The scratch directory of a task whose output is named `name`.
pub open spec fn temp_dir_for(name: Seq<char>) -> Seq<char> {
    "downloads/temp/"@ + escape_separators(name)
}

/// Number of entries of `s` equal to `st`.
pub open spec fn count_state(s: Seq<ChunkState>, st: ChunkState) -> nat
    decreases s.len(),
{
    if s.len() == 0 {
        0
    } else {
        count_state(s.drop_last(), st) + if s.last() == st {
            1nat
        } else {
            0nat
        }
    }
}

/// Sum of `downloaded` over the completed chunks.
pub open spec fn completed_downloaded(c: Seq<DownloadChunk>) -> int
    decreases c.len(),
{
    if c.len() == 0 {
        0
    } else {
        completed_downloaded(c.drop_last()) + if c.last().completed {
            c.last().downloaded as int
        } else {
            0
        }
    }
}

/// Sum of range lengths over the completed chunks.
pub open spec fn completed_range_bytes(c: Seq<DownloadChunk>) -> int
    decreases c.len(),
{
    if c.len() == 0 {
        0
    } else {
        completed_range_bytes(c.drop_last()) + if c.last().completed {
            chunk_len(c.last())
        } else {
            0
        }
    }
}

/// The range `(start, end)` is one of `ranges`.
pub open spec fn range_listed(ranges: Seq<(u64, u64)>, start: u64, end: u64) -> bool {
    exists|k: int| 0 <= k < ranges.len() && #[trigger] ranges[k] == (start, end)
}

/// `r` is the range of a completed chunk among the first `bound` chunks.
pub open spec fn completed_range_in(chunks: Seq<DownloadChunk>, bound: int, r: (u64, u64)) -> bool {
    exists|j: int|
        0 <= j < bound && (#[trigger] chunks[j]).completed && r == (chunks[j].start, chunks[j].end)
}

/// `rec` is the resume record of `cm` for task `task_id` at `url` with the
/// probed validators of `fi`: exactly the completed ranges are listed.
pub open spec fn resume_record_of(
    rec: ResumeInfo,
    cm: ChunkedDownloadManager,
    task_id: u128,
    url: Seq<char>,
    fi: FileInfo,
) -> bool {
    &&& rec.task_id == task_id
    &&& rec.url@ == url
    &&& rec.file@ == cm.file_name@
    &&& rec.total_size == cm.total_size
    &&& opt_chars(rec.etag) == opt_chars(fi.etag)
    &&& opt_chars(rec.last_modified) == opt_chars(fi.last_modified)
    &&& forall|k: int|
        0 <= k < rec.downloaded_chunks@.len() ==> completed_range_in(
            cm.chunks@,
            cm.chunks@.len() as int,
            #[trigger] rec.downloaded_chunks@[k],
        )
    &&& forall|i: int|
        0 <= i < cm.chunks@.len() && (#[trigger] cm.chunks@[i]).completed ==> range_listed(
            rec.downloaded_chunks@,
            cm.chunks@[i].start,
            cm.chunks@[i].end,
        )
}

/// An optional string, as characters.
pub open spec fn opt_chars(o: Option<String>) -> Option<Seq<char>> {
    match o {
        Some(s) => Some(s@),
        None => None,
    }
}

/// Stored and current validators agree: the ETags are equal (both present or
/// both absent), and where no ETag exists the Last-Modified values are equal.
pub open spec fn validators_match(
    stored_etag: Option<Seq<char>>,
    stored_lm: Option<Seq<char>>,
    current_etag: Option<Seq<char>>,
    current_lm: Option<Seq<char>>,
) -> bool {
    stored_etag == current_etag && (stored_etag is Some || stored_lm == current_lm)
}

/// Byte content of the chunks `0..n`, concatenated in index order.
pub open spec fn merged(content: Seq<u8>, chunks: Seq<DownloadChunk>, n: nat) -> Seq<u8>
    decreases n,
{
    if n == 0 || n > chunks.len() {
        Seq::empty()
    } else {
        merged(content, chunks, (n - 1) as nat) + content.subrange(
            chunks[n - 1].start as int,
            chunks[n - 1].end + 1,
        )
    }
}

fn opt_eq(a: &Option<String>, b: &Option<String>) -> (r: bool)
    ensures
        r == (opt_chars(*a) == opt_chars(*b)),
{
    match (a, b) {
        (Some(x), Some(y)) => crate::text::str_eq(x.as_str(), y.as_str()),
        (None, None) => true,
        _ => false,
    }
}

fn clone_opt(a: &Option<String>) -> (r: Option<String>)
    ensures
        opt_chars(r) == opt_chars(*a),
{
    match a {
        Some(x) => Some(x.clone()),
        None => None,
    }
}

/// Whether the resume record's validators still describe the remote file.
pub fn validate_resume(resume: &ResumeInfo, current: &FileInfo) -> (r: Result<(), DownloadError>)
    ensures
        r is Ok <==> validators_match(
            opt_chars(resume.etag),
            opt_chars(resume.last_modified),
            opt_chars(current.etag),
            opt_chars(current.last_modified),
        ),
        r matches Err(e) ==> e is ResumeFailed,
{
    if !opt_eq(&resume.etag, &current.etag) {
        return Err(DownloadError::resume_failed("ETag mismatch, file has changed."));
    }
    if resume.etag.is_none() && !opt_eq(&resume.last_modified, &current.last_modified) {
        return Err(DownloadError::resume_failed("Last-Modified mismatch, file has changed."));
    }
    Ok(())
}

fn find_range(ranges: &Vec<(u64, u64)>, start: u64, end: u64) -> (r: bool)
    ensures
        r == range_listed(ranges@, start, end),
{
    let mut k: usize = 0;
    while k < ranges.len()
        invariant
            k <= ranges@.len(),
            forall|k2: int| 0 <= k2 < k ==> ranges@[k2] != (start, end),
        decreases ranges@.len() - k,
    {
        let (s, e) = ranges[k];
        if s == start && e == end {
            return true;
        }
        k += 1;
    }
    false
}

proof fn lemma_count_prefix(s: Seq<ChunkState>, i: int, st: ChunkState)
    requires
        0 <= i < s.len(),
    ensures
        count_state(s.subrange(0, i + 1), st) == count_state(s.subrange(0, i), st) + if s[i]
            == st {
            1nat
        } else {
            0nat
        },
{
    assert(s.subrange(0, i + 1).drop_last() =~= s.subrange(0, i));
}

proof fn lemma_count_update(s: Seq<ChunkState>, i: int, st: ChunkState, x: ChunkState)
    requires
        0 <= i < s.len(),
        s[i] != st,
        x == st,
    ensures
        count_state(s.update(i, x), st) == count_state(s, st) + 1,
    decreases s.len(),
{
    if i == s.len() - 1 {
        assert(s.update(i, x).drop_last() =~= s.drop_last());
    } else {
        assert(s.update(i, x).drop_last() =~= s.drop_last().update(i, x));
        lemma_count_update(s.drop_last(), i, st, x);
    }
}

proof fn lemma_completed_sums(c: Seq<DownloadChunk>)
    requires
        forall|i: int| 0 <= i < c.len() && (#[trigger] c[i]).completed ==> c[i].downloaded
            == chunk_len(c[i]),
    ensures
        completed_downloaded(c) == completed_range_bytes(c),
    decreases c.len(),
{
    if c.len() > 0 {
        lemma_completed_sums(c.drop_last());
    }
}

pub(crate) proof fn lemma_ceil_div(total: int, cs: int, n: int)
    requires
        cs > 0,
        total >= 0,
        n >= 0,
        n * cs >= total,
        n == 0 || (n - 1) * cs < total,
    ensures
        n == (total + cs - 1) / cs,
{
    let x = total + cs - 1;
    let r = x - n * cs;
    if n == 0 {
        assert(total == 0) by (nonlinear_arith)
            requires
                n * cs >= total,
                n == 0,
                total >= 0,
        ;
    } else {
        assert(n * cs == (n - 1) * cs + cs) by (nonlinear_arith);
    }
    assert(0 <= r < cs);
    vstd::arithmetic::div_mod::lemma_fundamental_div_mod_converse(x, cs, n, r);
}

pub(crate) proof fn lemma_ceil_bound(total: int, cs: int, i: int)
    requires
        cs > 0,
        i >= 0,
        i * cs < total,
    ensures
        i + 1 <= (total + cs - 1) / cs,
{
    assert((i + 1) * cs == i * cs + cs) by (nonlinear_arith);
    vstd::arithmetic::div_mod::lemma_fundamental_div_mod_converse((i + 1) * cs, cs, i + 1, 0);
    vstd::arithmetic::div_mod::lemma_div_is_ordered((i + 1) * cs, total + cs - 1, cs);
}

pub(crate) proof fn lemma_index_in_range(total: int, cs: int, i: int)
    requires
        cs > 0,
        total >= 0,
        0 <= i < num_chunks(total as nat, cs as nat),
    ensures
        i * cs < total,
        chunk_end(i as nat, cs as nat, total as nat) >= i * cs,
{
    if i * cs >= total {
        assert(i * cs + cs - 1 >= total + cs - 1);
        vstd::arithmetic::div_mod::lemma_fundamental_div_mod_converse(i * cs, cs, i, 0);
        vstd::arithmetic::div_mod::lemma_div_is_ordered(total + cs - 1, i * cs + cs - 1, cs);
        vstd::arithmetic::div_mod::lemma_fundamental_div_mod_converse(i * cs + cs - 1, cs, i, cs - 1);
    }
    assert((i + 1) * cs == i * cs + cs) by (nonlinear_arith);
}

pub(crate) proof fn lemma_ceil_covers(total: int, cs: int)
    requires
        cs > 0,
        total >= 0,
    ensures
        num_chunks(total as nat, cs as nat) * cs >= total,
{
    let x = total + cs - 1;
    vstd::arithmetic::div_mod::lemma_fundamental_div_mod(x, cs);
    vstd::arithmetic::div_mod::lemma_mod_bound(x, cs);
    assert(cs * (x / cs) == (x / cs) * cs) by (nonlinear_arith);
}

proof fn lemma_merged_prefix(m: &ChunkedDownloadManager, content: Seq<u8>, n: nat)
    requires
        m.wf(),
        content.len() == m.total_size,
        n <= m.chunks@.len(),
    ensures
        merged(content, m.chunks@, n) == content.subrange(
            0,
            if n * (m.chunk_size as int) <= m.total_size {
                n * (m.chunk_size as int)
            } else {
                m.total_size as int
            },
        ),
    decreases n,
{
    let cs = m.chunk_size as int;
    if n == 0 {
        assert(n * cs == 0) by (nonlinear_arith)
            requires
                n == 0,
        ;
        assert(content.subrange(0, 0) =~= Seq::<u8>::empty());
    } else {
        lemma_merged_prefix(m, content, (n - 1) as nat);
        lemma_index_in_range(m.total_size as int, cs, n - 1);
        let c = m.chunks@[n - 1];
        assert(n * cs == (n - 1) * cs + cs) by (nonlinear_arith);
        assert(c.start == (n - 1) * cs);
        let hi = if n * cs <= m.total_size {
            n * cs
        } else {
            m.total_size as int
        };
        assert(c.end + 1 == hi);
        assert(content.subrange(0, (n - 1) * cs) + content.subrange((n - 1) * cs, hi)
            =~= content.subrange(0, hi));
        assert(merged(content, m.chunks@, (n - 1) as nat) == content.subrange(0, (n - 1) * cs));
        assert(merged(content, m.chunks@, n) == merged(content, m.chunks@, (n - 1) as nat)
            + content.subrange(c.start as int, c.end + 1));
        assert(merged(content, m.chunks@, n) == content.subrange(0, hi));
    }
}

/// The three chunk sets (active, completed, failed) are pairwise disjoint and
/// hold only indices of the chunk table.
pub proof fn lemma_chunk_sets_partition(m: &ChunkedDownloadManager)
    requires
        m.wf(),
    ensures
        m.active_set().disjoint(m.completed_set()),
        m.active_set().disjoint(m.failed_set()),
        m.completed_set().disjoint(m.failed_set()),
        m.active_set().union(m.completed_set()).union(m.failed_set()).subset_of(
            vstd::set_lib::set_int_range(0, m.chunks@.len() as int),
        ),
{
}

/// A completed chunk has contributed exactly its range length: summed over the
/// completed chunks, the downloaded counters equal the range lengths.
pub proof fn lemma_completed_bytes(m: &ChunkedDownloadManager)
    requires
        m.wf(),
    ensures
        completed_downloaded(m.chunks@) == completed_range_bytes(m.chunks@),
{
    lemma_completed_sums(m.chunks@);
}

/// Splitting a file into the chunk table's ranges and concatenating them in
/// index order gives back the file byte for byte, whatever the size of the
/// last chunk.
pub proof fn lemma_merge_reassembles(m: &ChunkedDownloadManager, content: Seq<u8>)
    requires
        m.wf(),
        content.len() == m.total_size,
    ensures
        merged(content, m.chunks@, m.chunks@.len()) == content,
{
    lemma_ceil_covers(m.total_size as int, m.chunk_size as int);
    lemma_merged_prefix(m, content, m.chunks@.len());
    assert(content.subrange(0, m.total_size as int) =~= content);
}

/// A total size equal to the chunk size gives exactly one chunk.
pub proof fn lemma_single_chunk(total_size: u64, chunk_size: u64)
    requires
        chunk_size > 0,
        total_size == chunk_size,
    ensures
        num_chunks(total_size as nat, chunk_size as nat) == 1,
{
    lemma_ceil_div(total_size as int, chunk_size as int, 1);
}

/// Resuming restores exactly the completed chunks: for a record whose ranges
/// are those of the completed chunks of `before`, a fresh table of the same
/// layout lists chunk `i` as completed iff it was completed in `before`.
pub proof fn lemma_resume_restores_completed(
    before: &ChunkedDownloadManager,
    after: &ChunkedDownloadManager,
    ranges: Seq<(u64, u64)>,
)
    requires
        before.wf(),
        after.wf(),
        after.total_size == before.total_size,
        after.chunk_size == before.chunk_size,
        forall|k: int|
            0 <= k < ranges.len() ==> completed_range_in(
                before.chunks@,
                before.chunks@.len() as int,
                #[trigger] ranges[k],
            ),
        forall|i: int|
            0 <= i < before.chunks@.len() && (#[trigger] before.chunks@[i]).completed
                ==> range_listed(ranges, before.chunks@[i].start, before.chunks@[i].end),
    ensures
        forall|i: int|
            0 <= i < after.chunks@.len() ==> (range_listed(
                ranges,
                (#[trigger] after.chunks@[i]).start,
                after.chunks@[i].end,
            ) <==> before.chunks@[i].completed),
{
    let cs = before.chunk_size as int;
    assert forall|i: int| 0 <= i < after.chunks@.len() implies (range_listed(
        ranges,
        (#[trigger] after.chunks@[i]).start,
        after.chunks@[i].end,
    ) <==> before.chunks@[i].completed) by {
        assert(after.chunks@[i].start == before.chunks@[i].start);
        assert(after.chunks@[i].end == before.chunks@[i].end);
        if range_listed(ranges, after.chunks@[i].start, after.chunks@[i].end) {
            let k = choose|k: int|
                0 <= k < ranges.len() && #[trigger] ranges[k] == (
                    after.chunks@[i].start,
                    after.chunks@[i].end,
                );
            assert(completed_range_in(before.chunks@, before.chunks@.len() as int, ranges[k]));
            let j = choose|j: int|
                0 <= j < before.chunks@.len() && (#[trigger] before.chunks@[j]).completed
                    && ranges[k] == (before.chunks@[j].start, before.chunks@[j].end);
            assert(before.chunks@[j].start == j * cs);
            assert(before.chunks@[i].start == i * cs);
            if j < i {
                assert(j * cs < i * cs) by (nonlinear_arith)
                    requires
                        j < i,
                        cs > 0,
                ;
            } else if j > i {
                assert(i * cs < j * cs) by (nonlinear_arith)
                    requires
                        i < j,
                        cs > 0,
                ;
            }
        }
    }
}

impl ChunkedDownloadManager {
    /// The chunk table is a contiguous partition of `[0, total_size)` into
    /// chunks of `chunk_size` bytes (the last may be shorter), each chunk is in
    /// exactly one state, and a completed chunk has downloaded its whole range.
    pub open spec fn wf(&self) -> bool {
        &&& self.chunk_size > 0
        &&& self.chunks@.len() == num_chunks(self.total_size as nat, self.chunk_size as nat)
        &&& self.states@.len() == self.chunks@.len()
        &&& self.temp_dir@ == temp_dir_for(self.file_name@)
        &&& forall|i: int|
            0 <= i < self.chunks@.len() ==> {
                &&& (#[trigger] self.chunks@[i]).start == chunk_start(i as nat, self.chunk_size as nat)
                &&& self.chunks@[i].end == chunk_end(
                    i as nat,
                    self.chunk_size as nat,
                    self.total_size as nat,
                )
                &&& self.chunks@[i].completed <==> self.states@[i] == ChunkState::Completed
                &&& self.chunks@[i].completed ==> self.chunks@[i].downloaded == chunk_len(
                    self.chunks@[i],
                )
            }
    }

    /// Indices of the chunks in state `st`.
    pub open spec fn index_set(&self, st: ChunkState) -> Set<int> {
        Set::new(|i: int| 0 <= i < self.states@.len() && self.states@[i] == st)
    }

    pub open spec fn active_set(&self) -> Set<int> {
        self.index_set(ChunkState::Active)
    }

    pub open spec fn completed_set(&self) -> Set<int> {
        self.index_set(ChunkState::Completed)
    }

    pub open spec fn failed_set(&self) -> Set<int> {
        self.index_set(ChunkState::Failed)
    }

    /// Number of chunks being worked on.
    pub open spec fn active_count(&self) -> nat {
        count_state(self.states@, ChunkState::Active)
    }

    /// Everything but the states, the chunk contents and the retry context
    /// is as in `old`.
    pub open spec fn same_table(&self, old: &Self) -> bool {
        &&& self.total_size == old.total_size
        &&& self.chunk_size == old.chunk_size
        &&& self.temp_dir@ == old.temp_dir@
        &&& self.file_name@ == old.file_name@
        &&& self.max_concurrent_chunks == old.max_concurrent_chunks
        &&& self.chunks@.len() == old.chunks@.len()
        &&& forall|i: int|
            0 <= i < self.chunks@.len() ==> (#[trigger] self.chunks@[i]).start
                == old.chunks@[i].start && self.chunks@[i].end == old.chunks@[i].end
    }

    /// Everything but the states and chunk contents is as in `old`.
    pub open spec fn same_layout(&self, old: &Self) -> bool {
        &&& self.same_table(old)
        &&& self.retry_context == old.retry_context
    }

    /// Splits `[0, total_size)` into chunks of `chunk_size` bytes, all pending,
    /// with the scratch directory named after `file_name` (separators escaped).
    pub fn new(total_size: u64, chunk_size: u64, file_name: String) -> (r: Self)
        requires
            chunk_size > 0,
            num_chunks(total_size as nat, chunk_size as nat) <= usize::MAX,
        ensures
            r.wf(),
            r.total_size == total_size,
            r.chunk_size == chunk_size,
            r.file_name@ == file_name@,
            r.max_concurrent_chunks == 3,
            forall|i: int| 0 <= i < r.states@.len() ==> r.states@[i] == ChunkState::Pending,
            forall|i: int| 0 <= i < r.chunks@.len() ==> (#[trigger] r.chunks@[i]).downloaded == 0,
            r.retry_context.current_retries == 0,
    {
        let mut chunks: Vec<DownloadChunk> = Vec::new();
        let mut states: Vec<ChunkState> = Vec::new();
        let mut start: u64 = 0;
        let mut i: usize = 0;
        while start < total_size
            invariant
                chunk_size > 0,
                num_chunks(total_size as nat, chunk_size as nat) <= usize::MAX,
                start <= total_size,
                chunks@.len() == i,
                states@.len() == i,
                start == (if i * chunk_size <= total_size {
                    i * chunk_size
                } else {
                    total_size as int
                }),
                start < total_size ==> start == i * chunk_size,
                i == 0 || (i - 1) * chunk_size < total_size,
                start == total_size ==> i * chunk_size >= total_size,
                forall|k: int|
                    0 <= k < i ==> {
                        &&& (#[trigger] chunks@[k]).start == chunk_start(k as nat, chunk_size as nat)
                        &&& chunks@[k].end == chunk_end(
                            k as nat,
                            chunk_size as nat,
                            total_size as nat,
                        )
                        &&& !chunks@[k].completed
                        &&& chunks@[k].downloaded == 0
                    },
                forall|k: int| 0 <= k < i ==> states@[k] == ChunkState::Pending,
            decreases total_size - start,
        {
            proof {
                assert((i + 1) * chunk_size == i * chunk_size + chunk_size) by (nonlinear_arith);
                lemma_ceil_bound(total_size as int, chunk_size as int, i as int);
            }
            let cstart = start;
            let end: u64;
            if total_size - start <= chunk_size {
                end = total_size - 1;
                start = total_size;
            } else {
                end = start + chunk_size - 1;
                start = start + chunk_size;
            }
            chunks.push(DownloadChunk { start: cstart, end, downloaded: 0, completed: false });
            states.push(ChunkState::Pending);
            proof {
                assert(chunks@[i as int].start == chunk_start(i as nat, chunk_size as nat));
                assert(chunks@[i as int].end == chunk_end(i as nat, chunk_size as nat, total_size as nat));
            }
            i = i + 1;
        }
        proof {
            lemma_ceil_div(total_size as int, chunk_size as int, i as int);
        }
        let mut temp_dir = String::from_str("downloads/temp/");
        proof {
            reveal_strlit("downloads/temp/");
        }
        push_escaped(&mut temp_dir, file_name.as_str());
        ChunkedDownloadManager {
            chunks,
            states,
            total_size,
            chunk_size,
            temp_dir,
            file_name,
            max_concurrent_chunks: 3,
            retry_context: RetryContext::new(3, 1000, 60000),
        }
    }

    /// Sets the cap on chunks in flight.
    pub fn set_max_concurrent_chunks(&mut self, max: usize)
        requires
            old(self).wf(),
        ensures
            final(self).wf(),
            final(self).max_concurrent_chunks == max,
            final(self).total_size == old(self).total_size,
            final(self).chunk_size == old(self).chunk_size,
            final(self).chunks@ == old(self).chunks@,
            final(self).states@ == old(self).states@,
    {
        self.max_concurrent_chunks = max;
    }

    /// Number of chunks in flight.
    pub fn count_active(&self) -> (r: usize)
        requires
            self.wf(),
        ensures
            r == self.active_count(),
    {
        let mut n: usize = 0;
        let mut i: usize = 0;
        while i < self.states.len()
            invariant
                i <= self.states@.len(),
                n == count_state(self.states@.subrange(0, i as int), ChunkState::Active),
                n <= i,
            decreases self.states@.len() - i,
        {
            proof {
                lemma_count_prefix(self.states@, i as int, ChunkState::Active);
            }
            if self.states[i] == ChunkState::Active {
                n = n + 1;
            }
            i = i + 1;
        }
        proof {
            assert(self.states@.subrange(0, i as int) =~= self.states@);
        }
        n
    }

    /// Claims the lowest-index pending chunk, provided fewer than
    /// `max_concurrent_chunks` chunks are in flight; it becomes active.
    pub fn get_next_available_chunk(&mut self) -> (r: Option<(usize, DownloadChunk)>)
        requires
            old(self).wf(),
        ensures
            final(self).wf(),
            final(self).same_layout(old(self)),
            final(self).chunks@ == old(self).chunks@,
            match r {
                Some((i, c)) => {
                    &&& old(self).active_count() < old(self).max_concurrent_chunks
                    &&& i < old(self).states@.len()
                    &&& old(self).states@[i as int] == ChunkState::Pending
                    &&& forall|j: int| 0 <= j < i ==> old(self).states@[j] != ChunkState::Pending
                    &&& final(self).states@ == old(self).states@.update(i as int, ChunkState::Active)
                    &&& final(self).active_count() == old(self).active_count() + 1
                    &&& c == old(self).chunks@[i as int]
                },
                None => {
                    &&& final(self).states@ == old(self).states@
                    &&& (old(self).active_count() >= old(self).max_concurrent_chunks || forall|j: int|
                        0 <= j < old(self).states@.len() ==> old(self).states@[j]
                            != ChunkState::Pending)
                },
            },
    {
        let active = self.count_active();
        if active >= self.max_concurrent_chunks {
            return None;
        }
        let mut i: usize = 0;
        while i < self.states.len()
            invariant
                self.wf(),
                self.chunks@ == old(self).chunks@,
                self.states@ == old(self).states@,
                self.same_layout(old(self)),
                self.active_count() == old(self).active_count(),
                active == old(self).active_count(),
                active < self.max_concurrent_chunks,
                i <= self.states@.len(),
                forall|j: int| 0 <= j < i ==> self.states@[j] != ChunkState::Pending,
            decreases self.states@.len() - i,
        {
            if self.states[i] == ChunkState::Pending {
                proof {
                    lemma_count_update(self.states@, i as int, ChunkState::Active, ChunkState::Active);
                }
                self.states.set(i, ChunkState::Active);
                return Some((i, self.chunks[i]));
            }
            i = i + 1;
        }
        None
    }

    /// Whether chunk `i` is in flight.
    pub fn is_chunk_active(&self, chunk_index: usize) -> (r: bool)
        requires
            self.wf(),
        ensures
            r == self.active_set().contains(chunk_index as int),
    {
        chunk_index < self.states.len() && self.states[chunk_index] == ChunkState::Active
    }

    /// Whether chunk `i` failed and waits for a retry.
    pub fn is_chunk_failed(&self, chunk_index: usize) -> (r: bool)
        requires
            self.wf(),
        ensures
            r == self.failed_set().contains(chunk_index as int),
    {
        chunk_index < self.states.len() && self.states[chunk_index] == ChunkState::Failed
    }

    /// Marks chunk `i` completed (whatever it was) with its whole range
    /// downloaded; an index past the table changes nothing.
    pub fn mark_chunk_completed(&mut self, chunk_index: usize)
        requires
            old(self).wf(),
        ensures
            final(self).wf(),
            final(self).same_layout(old(self)),
            chunk_index < old(self).chunks@.len() ==> {
                &&& final(self).states@ == old(self).states@.update(
                    chunk_index as int,
                    ChunkState::Completed,
                )
                &&& final(self).chunks@ == old(self).chunks@.update(
                    chunk_index as int,
                    DownloadChunk {
                        completed: true,
                        downloaded: (old(self).chunks@[chunk_index as int].end - old(
                            self,
                        ).chunks@[chunk_index as int].start + 1) as u64,
                        ..old(self).chunks@[chunk_index as int]
                    },
                )
            },
            chunk_index >= old(self).chunks@.len() ==> final(self).states@ == old(self).states@
                && final(self).chunks@ == old(self).chunks@,
    {
        if chunk_index < self.chunks.len() {
            let c = self.chunks[chunk_index];
            proof {
                lemma_index_in_range(
                    self.total_size as int,
                    self.chunk_size as int,
                    chunk_index as int,
                );
                assert(c.start <= c.end);
            }
            self.chunks.set(
                chunk_index,
                DownloadChunk { start: c.start, end: c.end, downloaded: c.end - c.start + 1, completed: true },
            );
            self.states.set(chunk_index, ChunkState::Completed);
        }
    }

    /// Moves chunk `i` to the failed state unless it is already completed or
    /// out of range.
    pub fn mark_chunk_failed(&mut self, chunk_index: usize)
        requires
            old(self).wf(),
        ensures
            final(self).wf(),
            final(self).same_layout(old(self)),
            final(self).chunks@ == old(self).chunks@,
            final(self).states@ == (if chunk_index < old(self).states@.len()
                && old(self).states@[chunk_index as int] != ChunkState::Completed {
                old(self).states@.update(chunk_index as int, ChunkState::Failed)
            } else {
                old(self).states@
            }),
    {
        if chunk_index < self.states.len() && self.states[chunk_index] != ChunkState::Completed {
            self.states.set(chunk_index, ChunkState::Failed);
        }
    }

    /// Indices of the failed chunks in increasing order.
    pub fn failed_indices(&self) -> (r: Vec<usize>)
        requires
            self.wf(),
        ensures
            forall|k: int| 0 <= k < r@.len() ==> self.failed_set().contains(#[trigger] r@[k] as int),
            forall|i: int| #[trigger] self.failed_set().contains(i) ==> r@.contains(i as usize),
            forall|a: int, b: int| 0 <= a < b < r@.len() ==> r@[a] < r@[b],
    {
        let mut v: Vec<usize> = Vec::new();
        let mut i: usize = 0;
        while i < self.states.len()
            invariant
                i <= self.states@.len(),
                forall|k: int| 0 <= k < v@.len() ==> #[trigger] v@[k] < i && self.states@[v@[k] as int]
                    == ChunkState::Failed,
                forall|j: int|
                    0 <= j < i && self.states@[j] == ChunkState::Failed ==> v@.contains(j as usize),
                forall|a: int, b: int| 0 <= a < b < v@.len() ==> v@[a] < v@[b],
            decreases self.states@.len() - i,
        {
            if self.states[i] == ChunkState::Failed {
                let ghost old_v = v@;
                v.push(i);
                proof {
                    assert forall|j: int|
                        0 <= j < i + 1 && self.states@[j] == ChunkState::Failed implies v@.contains(
                        j as usize,
                    ) by {
                        if j < i {
                            let k = choose|k: int| 0 <= k < old_v.len() && old_v[k] == j as usize;
                            assert(v@[k] == j as usize);
                        } else {
                            assert(v@[old_v.len() as int] == i);
                        }
                    }
                }
            }
            i = i + 1;
        }
        v
    }

    /// The failed chunks, provided the task-wide retry budget allows another
    /// round; otherwise none.
    pub fn get_failed_chunks_for_retry(&self) -> (r: Vec<usize>)
        requires
            self.wf(),
        ensures
            self.retry_context.current_retries >= self.retry_context.max_retries ==> r@.len() == 0,
            self.retry_context.current_retries < self.retry_context.max_retries ==> {
                &&& forall|k: int|
                    0 <= k < r@.len() ==> self.failed_set().contains(#[trigger] r@[k] as int)
                &&& forall|i: int| #[trigger] self.failed_set().contains(i) ==> r@.contains(i as usize)
            },
    {
        if self.retry_context.current_retries < self.retry_context.max_retries {
            self.failed_indices()
        } else {
            Vec::new()
        }
    }

    /// Whether some chunk failed and the retry budget allows another round.
    pub fn should_retry_failed_chunks(&self) -> (r: bool)
        requires
            self.wf(),
        ensures
            r == (self.failed_set().len() > 0 && self.retry_context.current_retries
                < self.retry_context.max_retries),
    {
        let mut i: usize = 0;
        let mut any = false;
        while i < self.states.len() && !any
            invariant
                i <= self.states@.len(),
                any ==> i < self.states@.len() && self.states@[i as int] == ChunkState::Failed,
                !any ==> forall|j: int| 0 <= j < i ==> self.states@[j] != ChunkState::Failed,
            decreases self.states@.len() - i + (if any { 0int } else { 1int }),
        {
            if self.states[i] == ChunkState::Failed {
                any = true;
            } else {
                i = i + 1;
            }
        }
        proof {
            self.lemma_index_set_finite(ChunkState::Failed);
            if any {
                assert(self.failed_set().contains(i as int));
            } else {
                assert(self.failed_set() =~= Set::empty());
            }
        }
        any && self.retry_context.current_retries < self.retry_context.max_retries
    }

    proof fn lemma_index_set_finite(&self, st: ChunkState)
        ensures
            self.index_set(st).finite(),
    {
        assert(self.index_set(st).subset_of(vstd::set_lib::set_int_range(0, self.states@.len() as int)));
        vstd::set_lib::lemma_int_range(0, self.states@.len() as int);
        vstd::set_lib::lemma_set_subset_finite(vstd::set_lib::set_int_range(0, self.states@.len() as int), self.index_set(st));
    }

    /// Spends one round of the task-wide retry budget, if any is left: every
    /// failed chunk becomes pending again and the indices are returned in
    /// increasing order. Without budget nothing changes and none are returned.
    pub fn retry_failed_chunks(&mut self) -> (r: Vec<usize>)
        requires
            old(self).wf(),
        ensures
            final(self).wf(),
            final(self).same_table(old(self)),
            final(self).chunks@ == old(self).chunks@,
            old(self).retry_context.current_retries >= old(self).retry_context.max_retries ==> {
                &&& r@.len() == 0
                &&& final(self).states@ == old(self).states@
                &&& final(self).retry_context.current_retries == old(self).retry_context.current_retries
            },
            old(self).retry_context.current_retries < old(self).retry_context.max_retries ==> {
                &&& final(self).retry_context.current_retries == old(self).retry_context.current_retries + 1
                &&& forall|k: int|
                    0 <= k < r@.len() ==> old(self).failed_set().contains(#[trigger] r@[k] as int)
                &&& forall|i: int| #[trigger] old(self).failed_set().contains(i) ==> r@.contains(i as usize)
                &&& final(self).states@.len() == old(self).states@.len()
                &&& forall|i: int|
                    0 <= i < old(self).states@.len() ==> #[trigger] final(self).states@[i] == (
                    if old(self).states@[i] == ChunkState::Failed {
                        ChunkState::Pending
                    } else {
                        old(self).states@[i]
                    })
            },
            final(self).retry_context.max_retries == old(self).retry_context.max_retries,
            final(self).retry_context.base_delay == old(self).retry_context.base_delay,
            final(self).retry_context.max_delay == old(self).retry_context.max_delay,
    {
        if self.retry_context.current_retries >= self.retry_context.max_retries {
            return Vec::new();
        }
        let v = self.failed_indices();
        self.retry_context.record_retry();
        let ghost s0 = self.states@;
        let mut i: usize = 0;
        while i < self.states.len()
            invariant
                s0 == old(self).states@,
                self.wf(),
                self.chunks@ == old(self).chunks@,
                self.same_table(old(self)),
                self.retry_context.current_retries == old(self).retry_context.current_retries + 1,
                self.retry_context.max_retries == old(self).retry_context.max_retries,
                self.retry_context.base_delay == old(self).retry_context.base_delay,
                self.retry_context.max_delay == old(self).retry_context.max_delay,
                forall|k: int|
                    0 <= k < v@.len() ==> old(self).failed_set().contains(#[trigger] v@[k] as int),
                forall|j: int| #[trigger] old(self).failed_set().contains(j) ==> v@.contains(j as usize),
                self.states@.len() == s0.len(),
                i <= s0.len(),
                forall|j: int| 0 <= j < i ==> #[trigger] self.states@[j] == (if s0[j] == ChunkState::Failed {
                    ChunkState::Pending
                } else {
                    s0[j]
                }),
                forall|j: int| i <= j < s0.len() ==> #[trigger] self.states@[j] == s0[j],
            decreases s0.len() - i,
        {
            if self.states[i] == ChunkState::Failed {
                self.states.set(i, ChunkState::Pending);
            }
            i = i + 1;
        }
        v
    }

    /// Forgets the retry history: the budget is whole again and every failed
    /// chunk is pending.
    pub fn reset_retry_state(&mut self)
        requires
            old(self).wf(),
        ensures
            final(self).wf(),
            final(self).same_table(old(self)),
            final(self).chunks@ == old(self).chunks@,
            final(self).retry_context.current_retries == 0,
            final(self).retry_context.max_retries == old(self).retry_context.max_retries,
            final(self).states@.len() == old(self).states@.len(),
            forall|i: int|
                0 <= i < old(self).states@.len() ==> #[trigger] final(self).states@[i] == (
                if old(self).states@[i] == ChunkState::Failed {
                    ChunkState::Pending
                } else {
                    old(self).states@[i]
                }),
    {
        self.retry_context.reset();
        let mut i: usize = 0;
        while i < self.states.len()
            invariant
                self.wf(),
                self.chunks@ == old(self).chunks@,
                self.same_table(old(self)),
                self.retry_context.current_retries == 0,
                self.retry_context.max_retries == old(self).retry_context.max_retries,
                self.states@.len() == old(self).states@.len(),
                i <= old(self).states@.len(),
                forall|j: int| 0 <= j < i ==> #[trigger] self.states@[j] == (if old(self).states@[j]
                    == ChunkState::Failed {
                    ChunkState::Pending
                } else {
                    old(self).states@[j]
                }),
                forall|j: int| i <= j < old(self).states@.len() ==> #[trigger] self.states@[j]
                    == old(self).states@[j],
            decreases old(self).states@.len() - i,
        {
            if self.states[i] == ChunkState::Failed {
                self.states.set(i, ChunkState::Pending);
            }
            i = i + 1;
        }
    }

    /// Records bytes received for a chunk that is not yet completed.
    pub fn update_chunk_progress(&mut self, chunk_index: usize, downloaded: u64)
        requires
            old(self).wf(),
        ensures
            final(self).wf(),
            final(self).same_layout(old(self)),
            final(self).states@ == old(self).states@,
            final(self).chunks@ == (if chunk_index < old(self).chunks@.len()
                && !old(self).chunks@[chunk_index as int].completed {
                old(self).chunks@.update(
                    chunk_index as int,
                    DownloadChunk { downloaded, ..old(self).chunks@[chunk_index as int] },
                )
            } else {
                old(self).chunks@
            }),
    {
        if chunk_index < self.chunks.len() && !self.chunks[chunk_index].completed {
            let c = self.chunks[chunk_index];
            self.chunks.set(chunk_index, DownloadChunk { downloaded, ..c });
        }
    }

    /// Bytes of the completed chunks: the task's byte counter. Never more than
    /// the file size.
    pub fn downloaded_bytes(&self) -> (r: u64)
        requires
            self.wf(),
        ensures
            r == completed_range_bytes(self.chunks@),
            r <= self.total_size,
    {
        let mut acc: u64 = 0;
        let mut i: usize = 0;
        let n = self.chunks.len();
        while i < n
            invariant
                self.wf(),
                n == self.chunks@.len(),
                i <= n,
                acc == completed_range_bytes(self.chunks@.subrange(0, i as int)),
                acc <= (if i < n {
                    self.chunks@[i as int].start as int
                } else {
                    self.total_size as int
                }),
            decreases n - i,
        {
            let c = self.chunks[i];
            proof {
                assert(self.chunks@.subrange(0, i + 1).drop_last() =~= self.chunks@.subrange(0, i as int));
                lemma_index_in_range(self.total_size as int, self.chunk_size as int, i as int);
                let cs = self.chunk_size as int;
                assert((i + 1) * cs == i * cs + cs) by (nonlinear_arith);
                if i + 1 < n {
                    lemma_index_in_range(self.total_size as int, cs, i + 1);
                    assert(self.chunks@[i + 1].start == (i + 1) * cs);
                } else {
                    lemma_ceil_covers(self.total_size as int, cs);
                    assert(n * cs >= self.total_size);
                }
            }
            if c.completed {
                acc = acc + (c.end - c.start + 1);
            }
            i = i + 1;
        }
        proof {
            assert(self.chunks@.subrange(0, n as int) =~= self.chunks@);
        }
        acc
    }

    /// Whether every chunk is completed.
    pub fn is_completed(&self) -> (r: bool)
        requires
            self.wf(),
        ensures
            r == (forall|i: int| 0 <= i < self.chunks@.len() ==> (#[trigger] self.chunks@[i]).completed),
    {
        let mut i: usize = 0;
        while i < self.chunks.len()
            invariant
                i <= self.chunks@.len(),
                forall|j: int| 0 <= j < i ==> (#[trigger] self.chunks@[j]).completed,
            decreases self.chunks@.len() - i,
        {
            if !self.chunks[i].completed {
                return false;
            }
            i = i + 1;
        }
        true
    }

    /// Counts of chunks by state; they add up to the number of chunks.
    pub fn get_stats(&self) -> (r: ChunkDownloadStats)
        requires
            self.wf(),
        ensures
            r.total_chunks == self.chunks@.len(),
            r.completed_chunks == count_state(self.states@, ChunkState::Completed),
            r.active_chunks == count_state(self.states@, ChunkState::Active),
            r.failed_chunks == count_state(self.states@, ChunkState::Failed),
            r.pending_chunks == count_state(self.states@, ChunkState::Pending),
            r.completed_chunks + r.active_chunks + r.failed_chunks + r.pending_chunks
                == r.total_chunks,
    {
        let mut c: usize = 0;
        let mut a: usize = 0;
        let mut f: usize = 0;
        let mut p: usize = 0;
        let mut i: usize = 0;
        while i < self.states.len()
            invariant
                i <= self.states@.len(),
                c == count_state(self.states@.subrange(0, i as int), ChunkState::Completed),
                a == count_state(self.states@.subrange(0, i as int), ChunkState::Active),
                f == count_state(self.states@.subrange(0, i as int), ChunkState::Failed),
                p == count_state(self.states@.subrange(0, i as int), ChunkState::Pending),
                c + a + f + p == i,
            decreases self.states@.len() - i,
        {
            proof {
                lemma_count_prefix(self.states@, i as int, ChunkState::Completed);
                lemma_count_prefix(self.states@, i as int, ChunkState::Active);
                lemma_count_prefix(self.states@, i as int, ChunkState::Failed);
                lemma_count_prefix(self.states@, i as int, ChunkState::Pending);
            }
            match self.states[i] {
                ChunkState::Completed => c = c + 1,
                ChunkState::Active => a = a + 1,
                ChunkState::Failed => f = f + 1,
                ChunkState::Pending => p = p + 1,
            }
            i = i + 1;
        }
        proof {
            assert(self.states@.subrange(0, i as int) =~= self.states@);
        }
        ChunkDownloadStats {
            total_chunks: self.chunks.len(),
            completed_chunks: c,
            active_chunks: a,
            failed_chunks: f,
            pending_chunks: p,
        }
    }

    /// Path of the scratch file of chunk `i`: `<temp_dir>/chunk_NNNN`.
    pub fn get_chunk_file_path(&self, chunk_index: usize) -> (r: String)
        ensures
            r@ == self.temp_dir@ + "/chunk_"@ + padded4(chunk_index as nat),
    {
        let mut s = self.temp_dir.clone();
        s.append("/chunk_");
        push_padded4(&mut s, chunk_index as u64);
        proof {
            reveal_strlit("/chunk_");
            assert(s@ =~= self.temp_dir@ + "/chunk_"@ + padded4(chunk_index as nat));
        }
        s
    }

    /// The scratch files to concatenate into the output, in index order.
    pub fn merge_plan(&self) -> (r: Vec<String>)
        ensures
            r@.len() == self.chunks@.len(),
            forall|i: int|
                0 <= i < r@.len() ==> (#[trigger] r@[i])@ == self.temp_dir@ + "/chunk_"@ + padded4(
                    i as nat,
                ),
    {
        let mut v: Vec<String> = Vec::new();
        let mut i: usize = 0;
        while i < self.chunks.len()
            invariant
                i <= self.chunks@.len(),
                v@.len() == i,
                forall|k: int|
                    0 <= k < i ==> (#[trigger] v@[k])@ == self.temp_dir@ + "/chunk_"@ + padded4(
                        k as nat,
                    ),
            decreases self.chunks@.len() - i,
        {
            v.push(self.get_chunk_file_path(i));
            i = i + 1;
        }
        v
    }

    /// Checks that each scratch file holds exactly its chunk's range:
    /// `sizes[i]` is the size on disk of chunk `i`'s file.
    pub fn verify_chunk_sizes(&self, sizes: &Vec<u64>) -> (r: Result<(), DownloadError>)
        requires
            self.wf(),
        ensures
            r is Ok <==> (sizes@.len() == self.chunks@.len() && forall|i: int|
                0 <= i < sizes@.len() ==> sizes@[i] == chunk_len(#[trigger] self.chunks@[i])),
            r matches Err(e) ==> (e is SizeMismatch || e is Unknown),
    {
        if sizes.len() != self.chunks.len() {
            return Err(DownloadError::unknown("chunk file count does not match the chunk table"));
        }
        let mut i: usize = 0;
        while i < sizes.len()
            invariant
                self.wf(),
                sizes@.len() == self.chunks@.len(),
                i <= sizes@.len(),
                forall|j: int| 0 <= j < i ==> sizes@[j] == chunk_len(#[trigger] self.chunks@[j]),
            decreases sizes@.len() - i,
        {
            let c = self.chunks[i];
            proof {
                lemma_index_in_range(self.total_size as int, self.chunk_size as int, i as int);
            }
            let expected = c.end - c.start + 1;
            if sizes[i] != expected {
                return Err(DownloadError::SizeMismatch { expected, actual: sizes[i] });
            }
            i = i + 1;
        }
        Ok(())
    }

    /// Validates a stored resume record against the current validators and, on
    /// success, marks every chunk whose exact range it lists as completed. On a
    /// mismatch nothing changes and `ResumeFailed` is returned.
    pub fn load_and_validate_resume_info(&mut self, resume: &ResumeInfo, current: &FileInfo) -> (r:
        Result<(), DownloadError>)
        requires
            old(self).wf(),
        ensures
            final(self).wf(),
            final(self).same_layout(old(self)),
            r is Ok <==> validators_match(
                opt_chars(resume.etag),
                opt_chars(resume.last_modified),
                opt_chars(current.etag),
                opt_chars(current.last_modified),
            ),
            r matches Err(e) ==> e is ResumeFailed && final(self).states@ == old(self).states@
                && final(self).chunks@ == old(self).chunks@,
            r is Ok ==> forall|i: int|
                0 <= i < old(self).states@.len() ==> #[trigger] final(self).states@[i] == (if range_listed(
                    resume.downloaded_chunks@,
                    old(self).chunks@[i].start,
                    old(self).chunks@[i].end,
                ) {
                    ChunkState::Completed
                } else {
                    old(self).states@[i]
                }),
    {
        match validate_resume(resume, current) {
            Err(e) => {
                return Err(e);
            },
            Ok(()) => {},
        }
        let ghost s0 = self.states@;
        let ghost c0 = self.chunks@;
        let mut i: usize = 0;
        while i < self.chunks.len()
            invariant
                self.wf(),
                self.same_layout(old(self)),
                s0 == old(self).states@,
                c0 == old(self).chunks@,
                i <= c0.len(),
                forall|j: int| 0 <= j < i ==> #[trigger] self.states@[j] == (if range_listed(
                    resume.downloaded_chunks@,
                    c0[j].start,
                    c0[j].end,
                ) {
                    ChunkState::Completed
                } else {
                    s0[j]
                }),
                forall|j: int| i <= j < c0.len() ==> #[trigger] self.states@[j] == s0[j],
            decreases c0.len() - i,
        {
            let c = self.chunks[i];
            if find_range(&resume.downloaded_chunks, c.start, c.end) {
                self.mark_chunk_completed(i);
            }
            i = i + 1;
        }
        Ok(())
    }

    /// Builds what is persisted for resuming: task id, URL, output name, size,
    /// validators, and the completed byte ranges in index order.
    pub fn resume_info(&self, task_id: u128, url: &str, file_info: &FileInfo) -> (r: ResumeInfo)
        requires
            self.wf(),
        ensures
            r.task_id == task_id,
            r.url@ == url@,
            r.file@ == self.file_name@,
            r.total_size == self.total_size,
            opt_chars(r.etag) == opt_chars(file_info.etag),
            opt_chars(r.last_modified) == opt_chars(file_info.last_modified),
            forall|k: int|
                0 <= k < r.downloaded_chunks@.len() ==> completed_range_in(
                    self.chunks@,
                    self.chunks@.len() as int,
                    #[trigger] r.downloaded_chunks@[k],
                ),
            forall|i: int| 0 <= i < self.chunks@.len() && (#[trigger] self.chunks@[i]).completed
                ==> range_listed(r.downloaded_chunks@, self.chunks@[i].start, self.chunks@[i].end),
            resume_record_of(r, *self, task_id, url@, *file_info),
    {
        let mut ranges: Vec<(u64, u64)> = Vec::new();
        let mut i: usize = 0;
        while i < self.chunks.len()
            invariant
                i <= self.chunks@.len(),
                forall|k: int|
                    0 <= k < ranges@.len() ==> completed_range_in(self.chunks@, i as int, #[trigger] ranges@[k]),
                forall|j: int| 0 <= j < i && (#[trigger] self.chunks@[j]).completed
                    ==> range_listed(ranges@, self.chunks@[j].start, self.chunks@[j].end),
            decreases self.chunks@.len() - i,
        {
            let c = self.chunks[i];
            let ghost old_r = ranges@;
            if c.completed {
                ranges.push((c.start, c.end));
            }
            proof {
                assert forall|k: int|
                    0 <= k < ranges@.len() implies completed_range_in(self.chunks@, i + 1, #[trigger] ranges@[k]) by {
                    if k < old_r.len() {
                        assert(ranges@[k] == old_r[k]);
                        assert(completed_range_in(self.chunks@, i as int, old_r[k]));
                        let j = choose|j: int| 0 <= j < i && (#[trigger] self.chunks@[j]).completed
                            && old_r[k] == (self.chunks@[j].start, self.chunks@[j].end);
                        assert(0 <= j < i + 1 && self.chunks@[j].completed);
                    } else {
                        assert(self.chunks@[i as int].completed);
                        assert(ranges@[k] == (c.start, c.end));
                    }
                }
                assert forall|j: int| 0 <= j < i + 1 && (#[trigger] self.chunks@[j]).completed
                    implies range_listed(ranges@, self.chunks@[j].start, self.chunks@[j].end) by {
                    if j < i {
                        let k = choose|k: int| 0 <= k < old_r.len() && #[trigger] old_r[k] == (self.chunks@[j].start, self.chunks@[j].end);
                        assert(ranges@[k] == old_r[k]);
                    } else {
                        assert(ranges@[old_r.len() as int] == (c.start, c.end));
                    }
                }
            }
            i = i + 1;
        }
        ResumeInfo {
            task_id,
            url: String::from_str(url),
            file: self.file_name.clone(),
            downloaded_chunks: ranges,
            total_size: self.total_size,
            last_modified: clone_opt(&file_info.last_modified),
            etag: clone_opt(&file_info.etag),
        }
    }
}

} // verus!
