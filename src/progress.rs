//! Per-file chunk progress, protocol names, task events and progress display
//! helpers.
use vstd::prelude::*;
use std::time::Instant;
use crate::chunk::{chunk_end, chunk_start, lemma_ceil_bound, lemma_ceil_div, num_chunks};
use crate::retry::{lower_of, lowercase};
use crate::text::{padded2, push_padded2, str_eq};

verus! {

/// Progress of one byte range of a file (both ends inclusive).
#[derive(Clone, Debug)]
pub struct ChunkProgress {
    pub index: usize,
    pub start: u64,
    pub end: u64,
    pub downloaded: bool,
    pub retry_count: u32,
    /// Last measured speed in bytes per second.
    pub last_speed: Option<u64>,
}

/// The chunk layout and progress of one file.
#[derive(Clone, Debug)]
pub struct FileProgress {
    pub url: String,
    pub file: String,
    pub total_size: u64,
    pub chunks: Vec<ChunkProgress>,
}

/// Transfer protocols by name.
#[derive(Clone, Copy, Debug, PartialEq, Eq, Structural)]
pub enum DownloadProtocol {
    HTTP,
    HTTPS,
    FTP,
    SFTP,
    FTPS,
    Magnet,
    BT,
}

/// Notifications about a task.
#[derive(Clone, Copy, Debug, PartialEq, Eq, Structural)]
pub enum TaskEvent {
    Started,
    Progress,
    Completed,
    Failed,
}

/// A sequential task number.
#[derive(Clone, Copy, Debug, PartialEq, Eq, Hash, Structural)]
pub struct TaskId(pub usize);

/// Start time and size of a download, for progress display.
#[derive(Debug)]
pub struct ProgressManager {
    pub total_size: u64,
    pub start_time: Instant,
}

/// Bytes in a chunk.
pub open spec fn progress_len(c: ChunkProgress) -> int {
    c.end - c.start + 1
}

/// Sum of the lengths of the downloaded chunks.
pub open spec fn downloaded_bytes(c: Seq<ChunkProgress>) -> int
    decreases c.len(),
{
    if c.len() == 0 {
        0
    } else {
        downloaded_bytes(c.drop_last()) + if c.last().downloaded {
            progress_len(c.last())
        } else {
            0
        }
    }
}

/// The protocol named by an already lower-cased name.
pub open spec fn protocol_named(s: Seq<char>) -> Option<DownloadProtocol> {
    if s == "http"@ {
        Some(DownloadProtocol::HTTP)
    } else if s == "https"@ {
        Some(DownloadProtocol::HTTPS)
    } else if s == "ftp"@ {
        Some(DownloadProtocol::FTP)
    } else if s == "sftp"@ {
        Some(DownloadProtocol::SFTP)
    } else if s == "ftps"@ {
        Some(DownloadProtocol::FTPS)
    } else if s == "magnet"@ {
        Some(DownloadProtocol::Magnet)
    } else if s == "bt"@ {
        Some(DownloadProtocol::BT)
    } else {
        None
    }
}

/// `h:mm:ss` rendering of a number of seconds, each field at least two digits.
pub open spec fn time_text(secs: nat) -> Seq<char> {
    padded2(secs / 3600) + ":"@ + padded2((secs % 3600) / 60) + ":"@ + padded2(secs % 60)
}

impl ChunkProgress {
    /// Bytes in the chunk.
    pub fn size(&self) -> (r: u64)
        requires
            self.start <= self.end,
            self.end < u64::MAX,
        ensures
            r == progress_len(*self),
    {
        self.end - self.start + 1
    }
}

impl FileProgress {
    /// The chunks partition `[0, total_size)` contiguously in index order.
    pub open spec fn wf(&self) -> bool {
        let c = self.chunks@;
        &&& (c.len() == 0 <==> self.total_size == 0)
        &&& c.len() > 0 ==> c[0].start == 0 && c.last().end + 1 == self.total_size
        &&& forall|i: int|
            0 <= i < c.len() ==> (#[trigger] c[i]).start <= c[i].end && c[i].index == i
        &&& forall|i: int| 0 <= i < c.len() - 1 ==> (#[trigger] c[i]).end + 1 == c[i + 1].start
    }

    /// Splits `[0, total_size)` into chunks of `chunk_size` bytes (the last may
    /// be shorter), none downloaded yet.
    pub fn new(url: &str, file: &str, total_size: u64, chunk_size: u64) -> (r: Self)
        requires
            chunk_size > 0,
            num_chunks(total_size as nat, chunk_size as nat) <= usize::MAX,
        ensures
            r.wf(),
            r.url@ == url@,
            r.file@ == file@,
            r.total_size == total_size,
            r.chunks@.len() == num_chunks(total_size as nat, chunk_size as nat),
            forall|i: int|
                0 <= i < r.chunks@.len() ==> {
                    &&& (#[trigger] r.chunks@[i]).start == chunk_start(i as nat, chunk_size as nat)
                    &&& r.chunks@[i].end == chunk_end(i as nat, chunk_size as nat, total_size as nat)
                    &&& !r.chunks@[i].downloaded
                    &&& r.chunks@[i].retry_count == 0
                    &&& r.chunks@[i].last_speed is None
                },
    {
        let mut chunks: Vec<ChunkProgress> = Vec::new();
        let mut start: u64 = 0;
        let mut i: usize = 0;
        while start < total_size
            invariant
                chunk_size > 0,
                num_chunks(total_size as nat, chunk_size as nat) <= usize::MAX,
                start <= total_size,
                chunks@.len() == i,
                start < total_size ==> start == i * chunk_size,
                i == 0 || (i - 1) * chunk_size < total_size,
                start == total_size ==> i * chunk_size >= total_size,
                i > 0 ==> chunks@[i - 1].end + 1 == start,
                i == 0 ==> start == 0,
                forall|k: int|
                    0 <= k < i ==> {
                        &&& (#[trigger] chunks@[k]).start == chunk_start(k as nat, chunk_size as nat)
                        &&& chunks@[k].end == chunk_end(k as nat, chunk_size as nat, total_size as nat)
                        &&& chunks@[k].start <= chunks@[k].end
                        &&& chunks@[k].index == k
                        &&& !chunks@[k].downloaded
                        &&& chunks@[k].retry_count == 0
                        &&& chunks@[k].last_speed is None
                    },
                forall|k: int| 0 <= k < i - 1 ==> (#[trigger] chunks@[k]).end + 1 == chunks@[k + 1].start,
            decreases total_size - start,
        {
            proof {
                assert((i + 1) * chunk_size == i * chunk_size + chunk_size) by (nonlinear_arith);
                lemma_ceil_bound(total_size as int, chunk_size as int, i as int);
            }
            let cstart = start;
            let end: u64;
            if total_size - start <= chunk_size {
                end = total_size - 1;
                start = total_size;
            } else {
                end = start + chunk_size - 1;
                start = start + chunk_size;
            }
            chunks.push(
                ChunkProgress { index: i, start: cstart, end, downloaded: false, retry_count: 0, last_speed: None },
            );
            proof {
                assert(chunks@[i as int].start == chunk_start(i as nat, chunk_size as nat));
                assert(chunks@[i as int].end == chunk_end(i as nat, chunk_size as nat, total_size as nat));
            }
            i = i + 1;
        }
        proof {
            lemma_ceil_div(total_size as int, chunk_size as int, i as int);
            if i > 0 {
                assert(chunks@.last() == chunks@[i - 1]);
            }
        }
        FileProgress { url: String::from_str(url), file: String::from_str(file), total_size, chunks }
    }

    /// `<file>.progress`.
    pub fn get_progress_path(&self) -> (r: String)
        ensures
            r@ == self.file@ + ".progress"@,
    {
        let mut s = self.file.clone();
        s.append(".progress");
        s
    }

    /// Whether some chunk is not downloaded yet.
    pub fn has_incomplete_chunks(&self) -> (r: bool)
        ensures
            r == exists|i: int| 0 <= i < self.chunks@.len() && !(#[trigger] self.chunks@[i]).downloaded,
    {
        let mut i: usize = 0;
        while i < self.chunks.len()
            invariant
                i <= self.chunks@.len(),
                forall|j: int| 0 <= j < i ==> (#[trigger] self.chunks@[j]).downloaded,
            decreases self.chunks@.len() - i,
        {
            if !self.chunks[i].downloaded {
                return true;
            }
            i = i + 1;
        }
        false
    }

    /// Total bytes of the downloaded chunks; never more than the file size.
    pub fn get_downloaded_bytes(&self) -> (r: u64)
        requires
            self.wf(),
        ensures
            r == downloaded_bytes(self.chunks@),
            r <= self.total_size,
    {
        let mut acc: u64 = 0;
        let mut i: usize = 0;
        let n = self.chunks.len();
        while i < n
            invariant
                self.wf(),
                n == self.chunks@.len(),
                i <= n,
                acc == downloaded_bytes(self.chunks@.subrange(0, i as int)),
                acc <= (if i < n {
                    self.chunks@[i as int].start as int
                } else {
                    self.total_size as int
                }),
            decreases n - i,
        {
            let c = &self.chunks[i];
            proof {
                assert(self.chunks@.subrange(0, i + 1).drop_last() =~= self.chunks@.subrange(0, i as int));
                if i + 1 < n {
                    assert(self.chunks@[i as int].end + 1 == self.chunks@[i + 1].start);
                } else {
                    assert(self.chunks@.last() == self.chunks@[i as int]);
                }
            }
            if c.downloaded {
                acc = acc + (c.end - c.start + 1);
            }
            i = i + 1;
        }
        proof {
            assert(self.chunks@.subrange(0, n as int) =~= self.chunks@);
        }
        acc
    }
}

impl DownloadProtocol {
    /// The protocol named by `s`, compared after lower-casing.
    pub fn parse(s: &str) -> (r: Option<DownloadProtocol>)
        ensures
            r == protocol_named(lower_of(s@)),
    {
        let lowered = lowercase(s);
        Self::parse_lowercase(lowered.as_str())
    }

    /// The protocol named by an already lower-cased `s`.
    pub fn parse_lowercase(s: &str) -> (r: Option<DownloadProtocol>)
        ensures
            r == protocol_named(s@),
    {
        if str_eq(s, "http") {
            Some(DownloadProtocol::HTTP)
        } else if str_eq(s, "https") {
            Some(DownloadProtocol::HTTPS)
        } else if str_eq(s, "ftp") {
            Some(DownloadProtocol::FTP)
        } else if str_eq(s, "sftp") {
            Some(DownloadProtocol::SFTP)
        } else if str_eq(s, "ftps") {
            Some(DownloadProtocol::FTPS)
        } else if str_eq(s, "magnet") {
            Some(DownloadProtocol::Magnet)
        } else if str_eq(s, "bt") {
            Some(DownloadProtocol::BT)
        } else {
            None
        }
    }
}

impl std::str::FromStr for DownloadProtocol {
    type Err = ();

    fn from_str(s: &str) -> Result<Self, ()> {
        match DownloadProtocol::parse(s) {
            Some(p) => Ok(p),
            None => Err(()),
        }
    }
}

impl ProgressManager {
    /// Starts the clock for a download of `total_size` bytes.
    pub fn new(total_size: u64) -> (r: Self)
        ensures
            r.total_size == total_size,
    {
        ProgressManager { total_size, start_time: Instant::now() }
    }
}

/// `hh:mm:ss` for a number of seconds.
pub fn format_time(secs: u64) -> (r: String)
    ensures
        r@ == time_text(secs as nat),
{
    let mut s = String::new();
    push_padded2(&mut s, secs / 3600);
    s.append(":");
    push_padded2(&mut s, (secs % 3600) / 60);
    s.append(":");
    push_padded2(&mut s, secs % 60);
    proof {
        assert(s@ =~= time_text(secs as nat));
    }
    s
}

} // verus!
