//! The per-task engine: pre-flight checks, mode selection, resume, chunk
//! dispatch and the reaction to each chunk and whole-download outcome. The
//! caller performs the I/O each step asks for and reports back.
use vstd::prelude::*;
use crate::chunk::{
    ChunkState, ChunkedDownloadManager, DownloadChunk, FileInfo, ResumeInfo, completed_range_bytes,
    count_state, num_chunks, opt_chars, range_listed, resume_record_of, validators_match,
};
use crate::config::Config;
use crate::error::{DownloadError, error_text};
use crate::limiter::SpeedLimiter;
use crate::manager::{TaskStatus, is_terminal};
use crate::retry::{RetryContext, RetryStats, RetryStrategy, retry_delay, retryable_with, strings_view, min_nat, doubled};
use crate::text::{decimal, push_decimal};
use crate::validator::{URL_PATTERN, is_valid_url, regex_compiles, regex_matches};

verus! {

/// How a file is fetched.
#[derive(Clone, Copy, Debug, PartialEq, Eq, Structural)]
pub enum DownloadMode {
    /// Byte ranges in parallel.
    Chunked,
    /// One GET for the whole file.
    Single,
}

/// What the dispatcher does after a chunk finished.
#[derive(Debug)]
pub enum NextStep {
    /// Keep dispatching.
    Continue,
    /// Every chunk is complete: merge the chunk files.
    Merge,
    /// Wait this many milliseconds, then retry the failed chunks.
    RetryFailedAfter(u64),
    /// The task failed.
    Fail(DownloadError),
    /// The task was paused.
    Paused,
}

/// The reaction to a finished chunk: a resume record to persist first, if
/// any, then the next step.
#[derive(Debug)]
pub struct ChunkReport {
    pub save_resume: Option<ResumeInfo>,
    pub next: NextStep,
}

/// What a chunk worker does after one attempt.
#[derive(Debug)]
pub enum AttemptStep {
    /// The chunk is on disk.
    Done,
    /// Sleep this many milliseconds, then try again.
    RetryAfter(u64),
    /// Stop with this error.
    GiveUp(DownloadError),
}

/// Per-task engine state.
#[derive(Debug)]
pub struct DownloadTaskActor {
    pub id: u128,
    pub url: String,
    pub file: String,
    pub status: TaskStatus,
    pub is_paused: bool,
    pub is_cancelled: bool,
    pub total_size: u64,
    pub downloaded: u64,
    pub config: Config,
    pub chunk_manager: Option<ChunkedDownloadManager>,
    pub file_info: Option<FileInfo>,
}

/// Chunked mode is used when enabled, the file is larger than
/// `min_chunk_size`, the server accepts byte ranges, and the chunk table fits.
pub open spec fn chunked_mode(config: Config, info: FileInfo) -> bool {
    &&& config.enable_chunked_download
    &&& info.size > config.min_chunk_size
    &&& info.supports_range
    &&& config.chunk_size > 0
    &&& config.chunk_size <= u64::MAX
    &&& num_chunks(info.size as nat, config.chunk_size as nat) <= usize::MAX
}

/// `bytes=<start>-<end>`.
pub open spec fn range_text(start: u64, end: u64) -> Seq<char> {
    "bytes="@ + decimal(start as nat) + "-"@ + decimal(end as nat)
}

/// A 2xx status.
pub open spec fn success_status(code: u16) -> bool {
    200 <= code <= 299
}

/// The message of a non-success status.
pub open spec fn status_message(code: u16) -> Seq<char> {
    "服务器错误: "@ + decimal(code as nat)
}

fn count_blocks(total: u64, cs: u64) -> (r: u64)
    requires
        cs > 0,
    ensures
        r == num_chunks(total as nat, cs as nat),
{
    let q = total / cs;
    proof {
        let t = total as int;
        let c = cs as int;
        vstd::arithmetic::div_mod::lemma_fundamental_div_mod(t, c);
        vstd::arithmetic::div_mod::lemma_mod_bound(t, c);
        assert(c * (t / c) == (t / c) * c) by (nonlinear_arith);
        if t % c == 0 {
            vstd::arithmetic::div_mod::lemma_fundamental_div_mod_converse(t + c - 1, c, t / c, c - 1);
        } else {
            assert((t / c + 1) * c == (t / c) * c + c) by (nonlinear_arith);
            vstd::arithmetic::div_mod::lemma_fundamental_div_mod_converse(
                t + c - 1,
                c,
                t / c + 1,
                t % c - 1,
            );
            assert((t / c) * c >= t / c) by (nonlinear_arith)
                requires
                    c >= 1,
                    t / c >= 0,
            ;
        }
    }
    if total % cs == 0 {
        q
    } else {
        q + 1
    }
}

/// Chunked or single-connection mode for a probed file.
pub fn choose_mode(config: &Config, info: &FileInfo) -> (r: DownloadMode)
    ensures
        r == DownloadMode::Chunked <==> chunked_mode(*config, *info),
{
    if !config.enable_chunked_download || !info.supports_range {
        return DownloadMode::Single;
    }
    if info.size as u128 <= config.min_chunk_size as u128 {
        return DownloadMode::Single;
    }
    if config.chunk_size == 0 || config.chunk_size as u128 > u64::MAX as u128 {
        return DownloadMode::Single;
    }
    let n = count_blocks(info.size, config.chunk_size as u64);
    if n as u128 <= usize::MAX as u128 {
        DownloadMode::Chunked
    } else {
        DownloadMode::Single
    }
}

/// The task's token bucket: none when the rate is unlimited (0 KiB/s),
/// otherwise `speed_limit_kb * 1024` bytes per second (saturating).
pub fn rate_limiter(config: &Config) -> (r: Option<SpeedLimiter>)
    ensures
        config.speed_limit_kb == 0 <==> r is None,
        r matches Some(l) ==> l.wf() && l.tokens == 0 && l.window_size == 1000 && (
        if config.speed_limit_kb <= u64::MAX / 1024 {
            l.max_speed == config.speed_limit_kb * 1024
        } else {
            l.max_speed == u64::MAX
        }),
{
    if config.speed_limit_kb == 0 {
        None
    } else if config.speed_limit_kb <= u64::MAX / 1024 {
        Some(SpeedLimiter::new(config.speed_limit_kb * 1024))
    } else {
        Some(SpeedLimiter::new(u64::MAX))
    }
}

/// A decimal digit.
pub open spec fn is_digit(c: char) -> bool {
    '0' <= c <= '9'
}

/// The value of a string of decimal digits.
pub open spec fn digits_value(s: Seq<char>) -> nat
    decreases s.len(),
{
    if s.len() == 0 {
        0
    } else {
        digits_value(s.drop_last()) * 10 + ((s.last() as u32) - ('0' as u32)) as nat
    }
}

/// What `u64::from_str` accepts: an optional `+`, then at least one decimal
/// digit, with a value that fits in `u64`.
pub open spec fn parsed_u64(s: Seq<char>) -> Option<u64> {
    let body = number_body(s);
    if body.len() > 0 && all_digits(body) && digits_value(body) <= u64::MAX {
        Some(digits_value(body) as u64)
    } else {
        None
    }
}

/// `s` without one leading `+`.
pub open spec fn number_body(s: Seq<char>) -> Seq<char> {
    if s.len() > 0 && s[0] == '+' {
        s.drop_first()
    } else {
        s
    }
}

/// Every character is a decimal digit.
pub open spec fn all_digits(s: Seq<char>) -> bool {
    forall|i: int| 0 <= i < s.len() ==> is_digit(#[trigger] s[i])
}

/// Parses a decimal `u64` (a `Content-Length` value).
pub fn parse_u64(s: &str) -> (r: Option<u64>)
    ensures
        r == parsed_u64(s@),
{
    let n = s.unicode_len();
    let mut i: usize = 0;
    if n > 0 && s.get_char(0) == '+' {
        i = 1;
    }
    let start = i;
    let ghost body = number_body(s@);
    proof {
        assert(body =~= s@.subrange(start as int, n as int));
    }
    if start == n {
        return None;
    }
    let big: u128 = u64::MAX as u128 + 1;
    let mut acc: u128 = 0;
    while i < n
        invariant
            n == s@.len(),
            start <= i <= n,
            body == s@.subrange(start as int, n as int),
            body == number_body(s@),
            body.len() > 0,
            big == u64::MAX + 1,
            forall|k: int| start <= k < i ==> is_digit(#[trigger] s@[k]),
            acc <= big,
            acc < big ==> acc == digits_value(s@.subrange(start as int, i as int)),
            acc == big ==> digits_value(s@.subrange(start as int, i as int)) > u64::MAX,
        decreases n - i,
    {
        let c = s.get_char(i);
        if !('0' <= c && c <= '9') {
            proof {
                assert(body[i - start] == s@[i as int]);
                assert(!is_digit(body[i - start]));
                assert(!all_digits(body));
                assert(parsed_u64(s@) is None);
            }
            return None;
        }
        let d = (c as u32 - '0' as u32) as u128;
        proof {
            let p = s@.subrange(start as int, i + 1);
            assert(p.drop_last() =~= s@.subrange(start as int, i as int));
            assert(p.last() == c);
        }
        if acc < big {
            let next = acc * 10 + d;
            acc = if next > u64::MAX as u128 {
                big
            } else {
                next
            };
        }
        i = i + 1;
    }
    proof {
        assert(s@.subrange(start as int, n as int) == body);
        assert forall|k: int| 0 <= k < body.len() implies is_digit(#[trigger] body[k]) by {
            assert(body[k] == s@[start + k]);
        }
        assert(all_digits(body));
    }
    if acc < big {
        Some(acc as u64)
    } else {
        None
    }
}

/// The probe result from the response's header values: the size from
/// `Content-Length` (0 when missing or malformed), range support when
/// `Accept-Ranges` is `bytes`, and the validators as given.
pub fn file_info_from_headers(
    content_length: Option<&str>,
    accept_ranges: Option<&str>,
    last_modified: Option<String>,
    etag: Option<String>,
) -> (r: FileInfo)
    ensures
        r.size == (match content_length {
            Some(v) => match parsed_u64(v@) {
                Some(n) => n,
                None => 0,
            },
            None => 0,
        }),
        r.supports_range == (match accept_ranges {
            Some(v) => v@ == "bytes"@,
            None => false,
        }),
        opt_chars(r.last_modified) == opt_chars(last_modified),
        opt_chars(r.etag) == opt_chars(etag),
{
    let size = match content_length {
        Some(v) => match parse_u64(v) {
            Some(n) => n,
            None => 0,
        },
        None => 0,
    };
    let supports_range = match accept_ranges {
        Some(v) => crate::text::str_eq(v, "bytes"),
        None => false,
    };
    FileInfo { size, supports_range, last_modified, etag }
}

/// Whether the metadata probe is tried again: once, after a network error.
pub fn retry_probe(attempts: u32, error: &DownloadError) -> (r: bool)
    ensures
        r == (attempts == 1 && *error is NetworkError),
{
    attempts == 1 && match error {
        DownloadError::NetworkError(_) => true,
        _ => false,
    }
}

/// The `Range` header value of a chunk.
pub fn range_header(start: u64, end: u64) -> (r: String)
    ensures
        r@ == range_text(start, end),
{
    let mut s = String::from_str("bytes=");
    push_decimal(&mut s, start);
    s.append("-");
    push_decimal(&mut s, end);
    proof {
        assert(s@ =~= range_text(start, end));
    }
    s
}

fn status_error(code: u16) -> (r: DownloadError)
    ensures
        r matches DownloadError::ServerError(m) && m@ == status_message(code),
{
    let mut s = String::from_str("服务器错误: ");
    push_decimal(&mut s, code as u64);
    DownloadError::ServerError(s)
}

/// The metadata probe succeeded iff its status is 2xx.
pub fn check_probe_status(code: u16) -> (r: Result<(), DownloadError>)
    ensures
        r is Ok <==> success_status(code),
        r matches Err(e) ==> e matches DownloadError::ServerError(m) && m@ == status_message(code),
{
    if 200 <= code && code <= 299 {
        Ok(())
    } else {
        Err(status_error(code))
    }
}

/// A chunk response is accepted iff its status is 200 or 206.
pub fn check_chunk_status(code: u16) -> (r: Result<(), DownloadError>)
    ensures
        r is Ok <==> (code == 200 || code == 206),
        r matches Err(e) ==> e matches DownloadError::ServerError(m) && m@ == status_message(code),
{
    if code == 200 || code == 206 {
        Ok(())
    } else {
        Err(status_error(code))
    }
}

/// A chunk file must hold exactly `end - start + 1` bytes.
pub fn verify_chunk_size(start: u64, end: u64, written: u64) -> (r: Result<(), DownloadError>)
    requires
        start <= end < u64::MAX,
    ensures
        r is Ok <==> written == end - start + 1,
        r matches Err(e) ==> e == (DownloadError::SizeMismatch {
            expected: (end - start + 1) as u64,
            actual: written,
        }),
{
    let expected = end - start + 1;
    if written == expected {
        Ok(())
    } else {
        Err(DownloadError::SizeMismatch { expected, actual: written })
    }
}

/// A single-connection download must announce a length and write exactly
/// that many bytes.
pub fn verify_single_size(expected: u64, written: u64) -> (r: Result<(), DownloadError>)
    ensures
        r is Ok <==> expected > 0 && written == expected,
        r matches Err(e) ==> e == (DownloadError::SizeMismatch { expected, actual: written }),
{
    if expected > 0 && written == expected {
        Ok(())
    } else {
        Err(DownloadError::SizeMismatch { expected, actual: written })
    }
}

/// The worker's decision after an attempt at a chunk, `stats` holding the
/// retries made so far: done on success; a pause stops at once; a retryable
/// error within the budget waits the strategy's delay for a uniform draw
/// `sample` (thousandths) and is recorded; anything else gives up.
pub fn chunk_attempt_step(
    strategy: &RetryStrategy,
    stats: &mut RetryStats,
    result: Result<(), DownloadError>,
    sample: u64,
) -> (r: AttemptStep)
    requires
        strategy.backoff_multiplier >= 1000,
        strategy.jitter_factor <= 1000,
        sample <= 1000,
    ensures
        match result {
            Ok(()) => r is Done && final(stats).retry_history@ == old(stats).retry_history@,
            Err(e) => if e is Paused {
                r matches AttemptStep::GiveUp(g) && g is Paused && final(stats).retry_history@ == old(
                    stats,
                ).retry_history@
            } else if old(stats).total_retries < strategy.max_retries && retryable_with(
                e,
                strings_view(strategy.retryable_errors@),
            ) {
                let d = retry_delay(*strategy, old(stats).total_retries as nat, sample as nat);
                &&& r matches AttemptStep::RetryAfter(x) && x == d
                &&& final(stats).retry_history@ == old(stats).retry_history@.push((e, d as u64))
                &&& final(stats).total_retries == old(stats).total_retries + 1
            } else {
                r matches AttemptStep::GiveUp(g) && g == e && final(stats).retry_history@ == old(
                    stats,
                ).retry_history@
            },
        },
{
    match result {
        Ok(()) => AttemptStep::Done,
        Err(e) => {
            if let DownloadError::Paused = e {
                return AttemptStep::GiveUp(e);
            }
            let retries = stats.total_retries;
            if strategy.should_retry(&e, retries) {
                let d = strategy.delay_with_sample(retries, sample);
                stats.record(e, d);
                AttemptStep::RetryAfter(d)
            } else {
                AttemptStep::GiveUp(e)
            }
        },
    }
}

proof fn lemma_count_away(s: Seq<ChunkState>, i: int, st: ChunkState, x: ChunkState)
    requires
        0 <= i < s.len(),
        s[i] == st,
        x != st,
    ensures
        count_state(s.update(i, x), st) + 1 == count_state(s, st),
    decreases s.len(),
{
    if i == s.len() - 1 {
        assert(s.update(i, x).drop_last() =~= s.drop_last());
    } else {
        assert(s.update(i, x).drop_last() =~= s.drop_last().update(i, x));
        lemma_count_away(s.drop_last(), i, st, x);
    }
}

impl DownloadTaskActor {
    /// The chunk table, when present, is well formed.
    pub open spec fn wf(&self) -> bool {
        self.chunk_manager matches Some(cm) ==> cm.wf()
    }

    /// A pending task for `url`, to be written to `file`.
    pub fn new(config: Config, id: u128, url: String, file: String) -> (r: Self)
        ensures
            r.wf(),
            r.id == id,
            r.url@ == url@,
            r.file@ == file@,
            r.status is Pending,
            !r.is_paused,
            !r.is_cancelled,
            r.total_size == 0,
            r.chunk_manager is None,
    {
        DownloadTaskActor {
            id,
            url,
            file,
            status: TaskStatus::Pending,
            is_paused: false,
            is_cancelled: false,
            total_size: 0,
            downloaded: 0,
            config,
            chunk_manager: None,
            file_info: None,
        }
    }

    /// The permit was granted: a task that has not ended runs and is not
    /// paused. A completed, failed or cancelled task stays as it is.
    pub fn start(&mut self)
        requires
            old(self).wf(),
        ensures
            final(self).wf(),
            final(self).chunk_manager == old(self).chunk_manager,
            is_terminal(old(self).status) ==> final(self).status == old(self).status
                && final(self).is_paused == old(self).is_paused,
            !is_terminal(old(self).status) ==> final(self).status is Running && !final(self).is_paused,
    {
        if self.is_ended() {
            return;
        }
        self.is_paused = false;
        self.status = TaskStatus::Running;
    }

    /// Whether the task is completed, failed or cancelled.
    pub fn is_ended(&self) -> (r: bool)
        ensures
            r == is_terminal(self.status),
    {
        match self.status {
            TaskStatus::Completed => true,
            TaskStatus::Failed(_) => true,
            TaskStatus::Cancelled => true,
            _ => false,
        }
    }

    fn is_running(&self) -> (r: bool)
        ensures
            r == (self.status is Running),
    {
        match self.status {
            TaskStatus::Running => true,
            _ => false,
        }
    }

    /// Before any request: the URL must be valid and the target must not exist.
    pub fn preflight(&self, target_exists: bool) -> (r: Result<(), DownloadError>)
        ensures
            !(regex_compiles(URL_PATTERN@) && regex_matches(URL_PATTERN@, self.url@)) ==> (r matches Err(
                e,
            ) && e matches DownloadError::InvalidUrl(m) && m@ == self.url@),
            (regex_compiles(URL_PATTERN@) && regex_matches(URL_PATTERN@, self.url@)) ==> (
            if target_exists {
                r matches Err(e) && e matches DownloadError::FileExists(m) && m@ == self.file@
            } else {
                r is Ok
            }),
    {
        if !is_valid_url(self.url.as_str()) {
            return Err(DownloadError::InvalidUrl(self.url.clone()));
        }
        if target_exists {
            return Err(DownloadError::FileExists(self.file.clone()));
        }
        Ok(())
    }

    /// Takes in the probe result and picks the mode; in chunked mode a fresh
    /// chunk table of `chunk_size` bytes per chunk is built.
    pub fn on_probe(&mut self, info: FileInfo) -> (r: DownloadMode)
        requires
            old(self).wf(),
        ensures
            final(self).wf(),
            r == DownloadMode::Chunked <==> chunked_mode(old(self).config, info),
            final(self).total_size == info.size,
            final(self).status == old(self).status,
            r == DownloadMode::Chunked ==> (final(self).chunk_manager matches Some(cm) && cm.total_size
                == info.size && cm.chunk_size == old(self).config.chunk_size
                && cm.max_concurrent_chunks == old(self).config.max_concurrent_chunks && forall|i: int|
                0 <= i < cm.states@.len() ==> cm.states@[i] == ChunkState::Pending),
            r == DownloadMode::Single ==> final(self).chunk_manager is None,
    {
        let mode = choose_mode(&self.config, &info);
        self.total_size = info.size;
        match mode {
            DownloadMode::Chunked => {
                let mut cm = ChunkedDownloadManager::new(
                    info.size,
                    self.config.chunk_size as u64,
                    self.file.clone(),
                );
                cm.set_max_concurrent_chunks(self.config.max_concurrent_chunks);
                self.chunk_manager = Some(cm);
            },
            DownloadMode::Single => {
                self.chunk_manager = None;
            },
        }
        self.file_info = Some(info);
        mode
    }

    /// Applies a stored resume record when resuming is enabled. On a
    /// validator mismatch the chunk table starts over and `ResumeFailed` is
    /// returned: the caller then removes the old chunk files.
    pub fn restore(&mut self, record: &ResumeInfo) -> (r: Result<(), DownloadError>)
        requires
            old(self).wf(),
        ensures
            final(self).wf(),
            final(self).status == old(self).status,
            r matches Err(e) ==> e is ResumeFailed,
            r is Ok && old(self).config.enable_resume && old(self).file_info is Some ==> (
            final(self).chunk_manager matches Some(cm) ==> final(self).downloaded
                == completed_range_bytes(cm.chunks@)),
            old(self).chunk_manager is None || !old(self).config.enable_resume || old(self).file_info is None
                ==> r is Ok && final(self).chunk_manager == old(self).chunk_manager,
            r is Err ==> (final(self).chunk_manager matches Some(cm) && forall|i: int|
                0 <= i < cm.states@.len() ==> cm.states@[i] == ChunkState::Pending),
            old(self).config.enable_resume ==> (old(self).file_info matches Some(fi) ==> (old(self).chunk_manager matches Some(cm0) ==> (final(self).chunk_manager matches Some(cm1) && {
                &&& (r is Ok <==> validators_match(
                    opt_chars(record.etag),
                    opt_chars(record.last_modified),
                    opt_chars(fi.etag),
                    opt_chars(fi.last_modified),
                ))
                &&& cm1.total_size == cm0.total_size
                &&& cm1.chunk_size == cm0.chunk_size
                &&& cm1.max_concurrent_chunks == cm0.max_concurrent_chunks
                &&& cm1.states@.len() == cm0.states@.len()
                &&& r is Ok ==> forall|i: int|
                    0 <= i < cm0.states@.len() ==> #[trigger] cm1.states@[i] == (if range_listed(
                        record.downloaded_chunks@,
                        cm0.chunks@[i].start,
                        cm0.chunks@[i].end,
                    ) {
                        ChunkState::Completed
                    } else {
                        cm0.states@[i]
                    })
                &&& r is Err ==> forall|i: int|
                    0 <= i < cm1.chunks@.len() ==> !(#[trigger] cm1.chunks@[i]).completed
            }))),
    {
        if !self.config.enable_resume {
            return Ok(());
        }
        let info = match &self.file_info {
            Some(i) => i,
            None => {
                return Ok(());
            },
        };
        let mut cm = match self.chunk_manager.take() {
            Some(cm) => cm,
            None => {
                return Ok(());
            },
        };
        match cm.load_and_validate_resume_info(record, info) {
            Ok(()) => {
                self.downloaded = cm.downloaded_bytes();
                self.chunk_manager = Some(cm);
                Ok(())
            },
            Err(e) => {
                let _len = cm.chunks.len();
                let cap = cm.max_concurrent_chunks;
                let mut fresh = ChunkedDownloadManager::new(cm.total_size, cm.chunk_size, cm.file_name);
                fresh.set_max_concurrent_chunks(cap);
                self.chunk_manager = Some(fresh);
                Err(e)
            },
        }
    }

    /// Claims every chunk that may start now, lowest index first, while the
    /// task runs and is not paused. Each returned chunk is now active.
    pub fn dispatch(&mut self) -> (r: Vec<(usize, DownloadChunk)>)
        requires
            old(self).wf(),
        ensures
            final(self).wf(),
            final(self).status == old(self).status,
            final(self).is_paused == old(self).is_paused,
            old(self).is_paused || !(old(self).status is Running) || old(self).chunk_manager is None
                ==> r@.len() == 0 && final(self).chunk_manager == old(self).chunk_manager,
            old(self).chunk_manager matches Some(cm0) ==> (final(self).chunk_manager matches Some(cm1) && {
                &&& cm1.chunks@ == cm0.chunks@
                &&& cm1.states@.len() == cm0.states@.len()
                &&& forall|k: int|
                    0 <= k < r@.len() ==> (#[trigger] r@[k]).0 < cm0.states@.len()
                        && cm0.states@[r@[k].0 as int] == ChunkState::Pending
                        && cm1.states@[r@[k].0 as int] == ChunkState::Active && r@[k].1
                        == cm0.chunks@[r@[k].0 as int]
                &&& forall|i: int|
                    0 <= i < cm0.states@.len() && cm1.states@[i] != cm0.states@[i] ==> cm0.states@[i]
                        == ChunkState::Pending && cm1.states@[i] == ChunkState::Active
                &&& !old(self).is_paused && old(self).status is Running ==> (cm1.active_count()
                    >= cm1.max_concurrent_chunks || forall|i: int|
                    0 <= i < cm1.states@.len() ==> cm1.states@[i] != ChunkState::Pending)
            }),
    {
        let mut out: Vec<(usize, DownloadChunk)> = Vec::new();
        let running = match self.status {
            TaskStatus::Running => true,
            _ => false,
        };
        if self.is_paused || !running {
            return out;
        }
        let mut cm = match self.chunk_manager.take() {
            Some(cm) => cm,
            None => {
                return out;
            },
        };
        let ghost cm0 = cm;
        loop
            invariant
                cm.wf(),
                cm.chunks@ == cm0.chunks@,
                cm.states@.len() == cm0.states@.len(),
                cm.max_concurrent_chunks == cm0.max_concurrent_chunks,
                cm.same_layout(&cm0),
                forall|k: int|
                    0 <= k < out@.len() ==> (#[trigger] out@[k]).0 < cm0.states@.len()
                        && cm0.states@[out@[k].0 as int] == ChunkState::Pending
                        && cm.states@[out@[k].0 as int] == ChunkState::Active && out@[k].1
                        == cm0.chunks@[out@[k].0 as int],
                forall|i: int|
                    0 <= i < cm0.states@.len() && cm.states@[i] != cm0.states@[i] ==> cm0.states@[i]
                        == ChunkState::Pending && cm.states@[i] == ChunkState::Active,
            ensures
                cm.wf(),
                cm.chunks@ == cm0.chunks@,
                cm.states@.len() == cm0.states@.len(),
                cm.max_concurrent_chunks == cm0.max_concurrent_chunks,
                forall|k: int|
                    0 <= k < out@.len() ==> (#[trigger] out@[k]).0 < cm0.states@.len()
                        && cm0.states@[out@[k].0 as int] == ChunkState::Pending
                        && cm.states@[out@[k].0 as int] == ChunkState::Active && out@[k].1
                        == cm0.chunks@[out@[k].0 as int],
                forall|i: int|
                    0 <= i < cm0.states@.len() && cm.states@[i] != cm0.states@[i] ==> cm0.states@[i]
                        == ChunkState::Pending && cm.states@[i] == ChunkState::Active,
                cm.active_count() >= cm.max_concurrent_chunks || forall|i: int|
                    0 <= i < cm.states@.len() ==> cm.states@[i] != ChunkState::Pending,
            decreases count_state(cm.states@, ChunkState::Pending),
        {
            let ghost before = cm.states@;
            match cm.get_next_available_chunk() {
                Some((i, c)) => {
                    proof {
                        lemma_count_away(before, i as int, ChunkState::Pending, ChunkState::Active);
                    }
                    out.push((i, c));
                },
                None => {
                    break;
                },
            }
        }
        self.chunk_manager = Some(cm);
        out
    }

    /// Reacts to the end of a chunk worker; an ended task ignores it. On
    /// success the chunk is marked completed, a resume record listing the
    /// completed ranges is produced when resuming is enabled, and the task
    /// merges once every chunk is complete. On failure the chunk moves to the
    /// failed set; a pause pauses a running task; when every chunk has failed
    /// and no retry budget is left the task fails; otherwise, when some chunk
    /// failed and budget is left, the failed chunks are retried after the
    /// context's delay.
    pub fn on_chunk_result(&mut self, chunk_index: usize, result: Result<(), DownloadError>) -> (r:
        ChunkReport)
        requires
            old(self).wf(),
        ensures
            final(self).wf(),
            is_terminal(old(self).status) ==> final(self).status == old(self).status
                && final(self).chunk_manager == old(self).chunk_manager && r.save_resume is None
                && r.next is Continue,
            final(self).status != old(self).status ==> old(self).status is Running,
            old(self).chunk_manager is None ==> r.save_resume is None && r.next is Continue,
            !is_terminal(old(self).status) ==> (old(self).chunk_manager matches Some(cm0) ==> (final(self).chunk_manager matches Some(cm1) && cm1.same_layout(&cm0) && match result {
                Ok(()) => {
                    &&& final(self).status == old(self).status
                    &&& chunk_index < cm0.states@.len() ==> cm1.states@ == cm0.states@.update(
                        chunk_index as int,
                        ChunkState::Completed,
                    )
                    &&& chunk_index >= cm0.states@.len() ==> cm1.states@ == cm0.states@
                    &&& (r.save_resume is Some <==> old(self).config.enable_resume
                        && old(self).file_info is Some)
                    &&& r.save_resume matches Some(rec) ==> (old(self).file_info matches Some(fi)
                        && resume_record_of(rec, cm1, old(self).id, old(self).url@, fi))
                    &&& (r.next is Merge <==> forall|i: int|
                        0 <= i < cm1.chunks@.len() ==> (#[trigger] cm1.chunks@[i]).completed)
                    &&& (r.next is Merge || r.next is Continue)
                    &&& final(self).downloaded == completed_range_bytes(cm1.chunks@)
                },
                Err(e) => {
                    &&& r.save_resume is None
                    &&& cm1.chunks@ == cm0.chunks@
                    &&& cm1.states@ == (if chunk_index < cm0.states@.len()
                        && cm0.states@[chunk_index as int] != ChunkState::Completed {
                        cm0.states@.update(chunk_index as int, ChunkState::Failed)
                    } else {
                        cm0.states@
                    })
                    &&& e is Paused ==> r.next is Paused && (old(self).status is Running
                        ==> final(self).status is Paused)
                    &&& !(e is Paused) ==> {
                        let all_failed = count_state(cm1.states@, ChunkState::Failed)
                            == cm1.chunks@.len();
                        let spent = cm1.retry_context.current_retries
                            >= cm1.retry_context.max_retries;
                        &&& (r.next is Fail <==> all_failed && spent)
                        &&& (r.next is RetryFailedAfter <==> !spent && cm1.failed_set().len() > 0)
                        &&& (r.next is Fail || r.next is RetryFailedAfter || r.next is Continue)
                        &&& r.next is Fail && old(self).status is Running ==> final(self).status is Failed
                    }
                    &&& r.next matches NextStep::RetryFailedAfter(d) ==> d == min_nat(
                        doubled(
                            cm1.retry_context.base_delay as nat,
                            cm1.retry_context.current_retries as nat,
                        ),
                        cm1.retry_context.max_delay as nat,
                    )
                },
            })),
    {
        if self.is_ended() {
            return ChunkReport { save_resume: None, next: NextStep::Continue };
        }
        let mut cm = match self.chunk_manager.take() {
            Some(cm) => cm,
            None => {
                return ChunkReport { save_resume: None, next: NextStep::Continue };
            },
        };
        let ghost cm0 = cm;
        match result {
            Ok(()) => {
                cm.mark_chunk_completed(chunk_index);
                self.downloaded = cm.downloaded_bytes();
                let save_resume = if self.config.enable_resume {
                    match &self.file_info {
                        Some(fi) => Some(cm.resume_info(self.id, self.url.as_str(), fi)),
                        None => None,
                    }
                } else {
                    None
                };
                let next = if cm.is_completed() {
                    NextStep::Merge
                } else {
                    NextStep::Continue
                };
                self.chunk_manager = Some(cm);
                ChunkReport { save_resume, next }
            },
            Err(e) => {
                cm.mark_chunk_failed(chunk_index);
                if let DownloadError::Paused = e {
                    if self.is_running() {
                        self.status = TaskStatus::Paused;
                    }
                    self.chunk_manager = Some(cm);
                    return ChunkReport { save_resume: None, next: NextStep::Paused };
                }
                let stats = cm.get_stats();
                let should = cm.should_retry_failed_chunks();
                let next = if stats.failed_chunks == stats.total_chunks
                    && cm.retry_context.current_retries >= cm.retry_context.max_retries {
                    let err = DownloadError::unknown("所有块下载失败");
                    if self.is_running() {
                        self.status = TaskStatus::Failed(err.message());
                    }
                    NextStep::Fail(err)
                } else if should {
                    NextStep::RetryFailedAfter(cm.retry_context.get_next_delay())
                } else {
                    NextStep::Continue
                };
                self.chunk_manager = Some(cm);
                ChunkReport { save_resume: None, next }
            },
        }
    }

    /// Spends one round of the task's retry budget on the failed chunks,
    /// which become pending again; returns their indices. Without budget
    /// nothing changes and none are returned.
    pub fn retry_failed(&mut self) -> (r: Vec<usize>)
        requires
            old(self).wf(),
        ensures
            final(self).wf(),
            final(self).status == old(self).status,
            old(self).chunk_manager is None ==> r@.len() == 0 && final(self).chunk_manager is None,
            old(self).chunk_manager matches Some(cm0) ==> (final(self).chunk_manager matches Some(cm1)
                && cm1.same_table(&cm0) && cm1.chunks@ == cm0.chunks@ && {
                let rc0 = cm0.retry_context;
                let rc1 = cm1.retry_context;
                &&& rc1.max_retries == rc0.max_retries
                &&& rc0.current_retries >= rc0.max_retries ==> {
                    &&& r@.len() == 0
                    &&& cm1.states@ == cm0.states@
                    &&& rc1.current_retries == rc0.current_retries
                }
                &&& rc0.current_retries < rc0.max_retries ==> {
                    &&& rc1.current_retries == rc0.current_retries + 1
                    &&& rc1.base_delay == rc0.base_delay
                    &&& rc1.max_delay == rc0.max_delay
                    &&& forall|k: int|
                        0 <= k < r@.len() ==> cm0.failed_set().contains(#[trigger] r@[k] as int)
                    &&& forall|i: int| #[trigger] cm0.failed_set().contains(i) ==> r@.contains(i as usize)
                    &&& cm1.states@.len() == cm0.states@.len()
                    &&& forall|i: int|
                        0 <= i < cm0.states@.len() ==> #[trigger] cm1.states@[i] == (if cm0.states@[i]
                            == ChunkState::Failed {
                            ChunkState::Pending
                        } else {
                            cm0.states@[i]
                        })
                }
            }),
    {
        match self.chunk_manager.take() {
            Some(mut cm) => {
                let v = cm.retry_failed_chunks();
                self.chunk_manager = Some(cm);
                v
            },
            None => Vec::new(),
        }
    }

    /// The merge finished: a running task completes, or fails with the merge
    /// error. Returns whether the resume record is to be deleted (before the
    /// task is reported completed). A task that is not running is left as it
    /// is.
    pub fn on_merged(&mut self, result: Result<(), DownloadError>) -> (r: bool)
        requires
            old(self).wf(),
        ensures
            final(self).wf(),
            final(self).chunk_manager == old(self).chunk_manager,
            !(old(self).status is Running) ==> final(self).status == old(self).status && !r,
            old(self).status is Running ==> match result {
                Ok(()) => final(self).status is Completed && r == old(self).config.enable_resume,
                Err(e) => final(self).status matches TaskStatus::Failed(m) && m@ == error_text(e) && !r,
            },
    {
        if !self.is_running() {
            return false;
        }
        match result {
            Ok(()) => {
                self.status = TaskStatus::Completed;
                self.config.enable_resume
            },
            Err(e) => {
                self.status = TaskStatus::Failed(e.message());
                false
            },
        }
    }

    /// Pauses a running task: no new chunks are dispatched.
    pub fn pause(&mut self)
        requires
            old(self).wf(),
        ensures
            final(self).wf(),
            final(self).is_paused,
            old(self).status is Running ==> final(self).status is Paused,
            !(old(self).status is Running) ==> final(self).status == old(self).status,
            final(self).chunk_manager == old(self).chunk_manager,
    {
        self.is_paused = true;
        if let TaskStatus::Running = self.status {
            self.status = TaskStatus::Paused;
        }
    }

    /// Cancels a running or paused task. Returns whether it was cancelled, in
    /// which case the caller removes the chunk files and the resume record.
    pub fn cancel(&mut self) -> (r: bool)
        requires
            old(self).wf(),
        ensures
            final(self).wf(),
            final(self).is_cancelled,
            r <==> (old(self).status is Running || old(self).status is Paused),
            r ==> final(self).status is Cancelled,
            !r ==> final(self).status == old(self).status,
    {
        self.is_cancelled = true;
        let cancellable = match self.status {
            TaskStatus::Running => true,
            TaskStatus::Paused => true,
            _ => false,
        };
        if cancellable {
            self.status = TaskStatus::Cancelled;
        }
        cancellable
    }

    /// The decision after one single-connection attempt: success completes
    /// the task; a retryable error within the budget counts a retry and waits
    /// the context's delay; otherwise the task fails with the error. Only a
    /// running task changes status.
    pub fn on_single_attempt(&mut self, ctx: &mut RetryContext, result: Result<(), DownloadError>) -> (r:
        AttemptStep)
        requires
            old(self).wf(),
        ensures
            final(self).wf(),
            final(self).chunk_manager == old(self).chunk_manager,
            final(self).status != old(self).status ==> old(self).status is Running,
            match result {
                Ok(()) => {
                    &&& r is Done
                    &&& *final(ctx) == *old(ctx)
                    &&& old(self).status is Running ==> final(self).status is Completed
                },
                Err(e) => if old(ctx).current_retries < old(ctx).max_retries && retryable_with(
                    e,
                    crate::retry::default_patterns(),
                ) {
                    &&& final(ctx).current_retries == old(ctx).current_retries + 1
                    &&& final(ctx).max_retries == old(ctx).max_retries
                    &&& final(ctx).base_delay == old(ctx).base_delay
                    &&& final(ctx).max_delay == old(ctx).max_delay
                    &&& r matches AttemptStep::RetryAfter(d) && d == min_nat(
                        doubled(final(ctx).base_delay as nat, final(ctx).current_retries as nat),
                        final(ctx).max_delay as nat,
                    )
                    &&& final(self).status == old(self).status
                } else {
                    &&& r matches AttemptStep::GiveUp(g) && g == e
                    &&& old(self).status is Running ==> (final(self).status matches TaskStatus::Failed(m)
                        && m@ == error_text(e))
                    &&& *final(ctx) == *old(ctx)
                },
            },
    {
        match result {
            Ok(()) => {
                if self.is_running() {
                    self.status = TaskStatus::Completed;
                }
                AttemptStep::Done
            },
            Err(e) => {
                if ctx.should_retry(&e) {
                    ctx.record_retry();
                    AttemptStep::RetryAfter(ctx.get_next_delay())
                } else {
                    if self.is_running() {
                        self.status = TaskStatus::Failed(e.message());
                    }
                    AttemptStep::GiveUp(e)
                }
            },
        }
    }
}

} // verus!
