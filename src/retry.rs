//! Retry policy: which errors are retried, and the exponential backoff delay.
use vstd::prelude::*;
use std::time::Instant;
use crate::error::{DownloadError, error_text};
use crate::text::{contains_seq, str_contains};

verus! {

/// What `str::to_lowercase` returns for a string.
pub uninterp spec fn lower_of(s: Seq<char>) -> Seq<char>;

/// Relies on str::to_lowercase: the result depends on the characters alone.
#[verifier::external_body]
pub(crate) fn lowercase(s: &str) -> (r: String)
    ensures
        r@ == lower_of(s@),
{
    s.to_lowercase()
}

/// Relies on rand::random: a uniformly drawn value; nothing is promised of it.
pub assume_specification<T>[ rand::random::<T> ]() -> T
    where
        rand::distributions::Standard: rand::distributions::Distribution<T>,
;

/// The substrings that make an I/O or unclassified error retryable by default.
pub open spec fn default_patterns() -> Seq<Seq<char>> {
    seq![
        "network error"@,
        "timeout"@,
        "connection reset"@,
        "temporary failure"@,
        "connection refused"@,
        "connection timeout"@,
        "dns resolution failed"@,
        "ssl error"@,
        "certificate error"@,
        "server error"@,
        "gateway timeout"@,
        "service unavailable"@,
    ]
}

/// The character sequences of a list of strings.
pub open spec fn strings_view(v: Seq<String>) -> Seq<Seq<char>> {
    v.map_values(|s: String| s@)
}

/// Some pattern of `pats` occurs in `text`.
pub open spec fn matches_any(text: Seq<char>, pats: Seq<Seq<char>>) -> bool {
    exists|i: int| 0 <= i < pats.len() && contains_seq(text, #[trigger] pats[i])
}

/// A server message naming a transient 5xx status.
pub open spec fn transient_status_text(m: Seq<char>) -> bool {
    contains_seq(m, "500"@) || contains_seq(m, "502"@) || contains_seq(m, "503"@)
        || contains_seq(m, "504"@) || contains_seq(m, "507"@) || contains_seq(m, "508"@)
}

/// Classification of an error as retryable, given the configured substrings.
pub open spec fn retryable_with(e: DownloadError, pats: Seq<Seq<char>>) -> bool {
    match e {
        DownloadError::NetworkError(_) => true,
        DownloadError::Timeout => true,
        DownloadError::ServerError(m) => transient_status_text(m@),
        DownloadError::IoError(_) => matches_any(lower_of(error_text(e)), pats),
        DownloadError::Unknown(m) => matches_any(lower_of(m@), pats),
        _ => false,
    }
}

/// `base * 2^n`.
pub open spec fn doubled(base: nat, n: nat) -> nat
    decreases n,
{
    if n == 0 {
        base
    } else {
        2 * doubled(base, (n - 1) as nat)
    }
}

pub open spec fn min_nat(a: nat, b: nat) -> nat {
    if a <= b {
        a
    } else {
        b
    }
}

/// The un-jittered backoff before retry `n`, in milliseconds: `base`, then
/// multiplied by `mult / 1000` (rounded down) once per earlier retry.
pub open spec fn backoff(base: nat, mult: nat, n: nat) -> nat
    decreases n,
{
    if n == 0 {
        base
    } else {
        backoff(base, mult, (n - 1) as nat) * mult / 1000
    }
}

/// `d` moved by `d * jitter/1000 * (sample/1000 - 1/2)`, rounded toward `d`.
pub open spec fn jittered(d: nat, jitter: nat, sample: nat) -> nat {
    if sample >= 500 {
        (d + d * jitter * (sample - 500) / 1_000_000) as nat
    } else {
        (d - d * jitter * (500 - sample as int) / 1_000_000) as nat
    }
}

/// The delay before retry `n`: the jittered backoff, at least 100 ms, at most
/// `max_delay`.
pub open spec fn retry_delay(s: RetryStrategy, n: nat, sample: nat) -> nat {
    let x = jittered(backoff(s.base_delay as nat, s.backoff_multiplier as nat, n), s.jitter_factor as nat, sample);
    min_nat(if x < 100 { 100 } else { x }, s.max_delay as nat)
}

proof fn lemma_backoff_monotone(base: nat, mult: nat, i: nat, n: nat)
    requires
        mult >= 1000,
        i <= n,
    ensures
        backoff(base, mult, i) <= backoff(base, mult, n),
    decreases n - i,
{
    if i < n {
        lemma_backoff_monotone(base, mult, i, (n - 1) as nat);
        let b = backoff(base, mult, (n - 1) as nat);
        assert(b * mult / 1000 >= b) by {
            assert(b * mult >= b * 1000) by (nonlinear_arith)
                requires
                    mult >= 1000,
            ;
            vstd::arithmetic::div_mod::lemma_div_is_ordered((b * 1000) as int, (b * mult) as int, 1000);
            vstd::arithmetic::div_mod::lemma_fundamental_div_mod_converse((b * 1000) as int, 1000, b as int, 0);
        }
    }
}

proof fn lemma_jitter_bounds(d: nat, jitter: nat, sample: nat)
    requires
        jitter <= 1000,
        sample <= 1000,
    ensures
        jittered(d, jitter, sample) >= d / 2,
        jittered(d, jitter, sample) <= d + d / 2,
{
    let k = if sample >= 500 { (sample - 500) as nat } else { (500 - sample) as nat };
    assert(k <= 500);
    assert(d * jitter * k <= d * 500_000) by (nonlinear_arith)
        requires
            jitter <= 1000,
            k <= 500,
    ;
    vstd::arithmetic::div_mod::lemma_div_is_ordered((d * jitter * k) as int, (d * 500_000) as int, 1_000_000);
    assert((d * 500_000) / 1_000_000 == d / 2) by {
        vstd::arithmetic::div_mod::lemma_div_multiples_vanish_quotient(500_000, d as int, 2);
    }
}

proof fn lemma_doubled_monotone(base: nat, i: nat, n: nat)
    requires
        i <= n,
    ensures
        doubled(base, i) <= doubled(base, n),
    decreases n - i,
{
    if i < n {
        lemma_doubled_monotone(base, i, (n - 1) as nat);
    }
}

fn push_owned(v: &mut Vec<String>, s: &str)
    ensures
        strings_view(final(v)@) == strings_view(old(v)@).push(s@),
{
    v.push(String::from_str(s));
    proof {
        assert(strings_view(v@) =~= strings_view(old(v)@).push(s@));
    }
}

/// The default list of retryable substrings.
pub fn default_retryable_errors() -> (r: Vec<String>)
    ensures
        strings_view(r@) == default_patterns(),
{
    let mut v: Vec<String> = Vec::new();
    push_owned(&mut v, "network error");
    push_owned(&mut v, "timeout");
    push_owned(&mut v, "connection reset");
    push_owned(&mut v, "temporary failure");
    push_owned(&mut v, "connection refused");
    push_owned(&mut v, "connection timeout");
    push_owned(&mut v, "dns resolution failed");
    push_owned(&mut v, "ssl error");
    push_owned(&mut v, "certificate error");
    push_owned(&mut v, "server error");
    push_owned(&mut v, "gateway timeout");
    push_owned(&mut v, "service unavailable");
    proof {
        assert(strings_view(v@) =~= default_patterns());
    }
    v
}

/// Whether some pattern occurs in `text`.
pub fn text_matches_any(text: &str, patterns: &Vec<String>) -> (r: bool)
    ensures
        r == matches_any(text@, strings_view(patterns@)),
{
    let mut i: usize = 0;
    while i < patterns.len()
        invariant
            i <= patterns@.len(),
            forall|k: int| 0 <= k < i ==> !contains_seq(text@, #[trigger] patterns@[k]@),
        decreases patterns@.len() - i,
    {
        if str_contains(text, patterns[i].as_str()) {
            proof {
                assert(strings_view(patterns@)[i as int] == patterns@[i as int]@);
            }
            return true;
        }
        i += 1;
    }
    proof {
        assert forall|k: int| 0 <= k < strings_view(patterns@).len() implies !contains_seq(
            text@,
            #[trigger] strings_view(patterns@)[k],
        ) by {
            assert(strings_view(patterns@)[k] == patterns@[k]@);
        }
    }
    false
}

/// Classifies `error` as retryable against the given substrings.
pub fn is_retryable_with(error: &DownloadError, patterns: &Vec<String>) -> (r: bool)
    ensures
        r == retryable_with(*error, strings_view(patterns@)),
{
    match error {
        DownloadError::NetworkError(_) => true,
        DownloadError::Timeout => true,
        DownloadError::ServerError(m) => {
            let s = m.as_str();
            str_contains(s, "500") || str_contains(s, "502") || str_contains(s, "503")
                || str_contains(s, "504") || str_contains(s, "507") || str_contains(s, "508")
        },
        DownloadError::IoError(_) => {
            let text = error.message();
            let lowered = lowercase(text.as_str());
            text_matches_any(lowered.as_str(), patterns)
        },
        DownloadError::Unknown(m) => {
            let lowered = lowercase(m.as_str());
            text_matches_any(lowered.as_str(), patterns)
        },
        _ => false,
    }
}

/// Retry parameters of a task. Delays are in milliseconds; the backoff
/// multiplier is in thousandths (at least 1000) and the jitter in thousandths
/// of the delay (at most 1000).
#[derive(Debug)]
pub struct RetryStrategy {
    pub max_retries: usize,
    pub base_delay: u64,
    pub max_delay: u64,
    pub backoff_multiplier: u64,
    pub jitter_factor: u64,
    pub retryable_errors: Vec<String>,
}

impl Default for RetryStrategy {
    /// Three retries, 1 s doubling up to 60 s, 10% jitter, default substrings.
    fn default() -> (r: Self)
        ensures
            r.max_retries == 3,
            r.base_delay == 1000,
            r.max_delay == 60000,
            r.backoff_multiplier == 2000,
            r.jitter_factor == 100,
            strings_view(r.retryable_errors@) == default_patterns(),
    {
        RetryStrategy {
            max_retries: 3,
            base_delay: 1000,
            max_delay: 60000,
            backoff_multiplier: 2000,
            jitter_factor: 100,
            retryable_errors: default_retryable_errors(),
        }
    }
}

impl RetryStrategy {
    /// Whether attempt number `retry_count + 1` should follow `error`: the
    /// budget is not used up and the error is retryable under this strategy's
    /// substrings.
    pub fn should_retry(&self, error: &DownloadError, retry_count: usize) -> (r: bool)
        ensures
            r == (retry_count < self.max_retries && retryable_with(
                *error,
                strings_view(self.retryable_errors@),
            )),
    {
        if retry_count >= self.max_retries {
            return false;
        }
        is_retryable_with(error, &self.retryable_errors)
    }

    /// The delay before retry `retry_count`, in milliseconds, for a uniform
    /// draw `sample` in thousandths (0 to 1000).
    pub fn delay_with_sample(&self, retry_count: usize, sample: u64) -> (r: u64)
        requires
            self.backoff_multiplier >= 1000,
            self.jitter_factor <= 1000,
            sample <= 1000,
        ensures
            r == retry_delay(*self, retry_count as nat, sample as nat),
    {
        let ghost base = self.base_delay as nat;
        let ghost mult = self.backoff_multiplier as nat;
        let limit: u128 = 2 * (self.max_delay as u128) + 2;
        let mut d: u128 = self.base_delay as u128;
        let mut i: usize = 0;
        let mut big = false;
        while i < retry_count && !big
            invariant
                i <= retry_count,
                limit == 2 * self.max_delay + 2,
                mult >= 1000,
                mult == self.backoff_multiplier,
                base == self.base_delay,
                !big ==> d == backoff(base, mult, i as nat),
                big ==> backoff(base, mult, i as nat) >= limit,
            decreases retry_count - i + (if big { 0int } else { 1int }),
        {
            if d >= limit {
                big = true;
            } else {
                match d.checked_mul(self.backoff_multiplier as u128) {
                    Some(p) => {
                        d = p / 1000;
                    },
                    None => {
                        proof {
                            let b = backoff(base, mult, i as nat);
                            assert(b * mult / 1000 >= limit) by {
                                assert(b * mult >= 1000 * limit) by (nonlinear_arith)
                                    requires
                                        b * mult > u128::MAX,
                                        limit <= 2 * u64::MAX + 2,
                                ;
                                vstd::arithmetic::div_mod::lemma_div_is_ordered(1000 * limit, (b * mult) as int, 1000);
                                vstd::arithmetic::div_mod::lemma_fundamental_div_mod_converse(
                                    1000 * limit,
                                    1000,
                                    limit as int,
                                    0,
                                );
                            }
                        }
                        big = true;
                    },
                }
                i = i + 1;
            }
        }
        proof {
            if big {
                lemma_backoff_monotone(base, mult, i as nat, retry_count as nat);
            }
        }
        if big || d >= limit {
            proof {
                let b = backoff(base, mult, retry_count as nat);
                lemma_jitter_bounds(b, self.jitter_factor as nat, sample as nat);
            }
            return self.max_delay;
        }
        let jf = self.jitter_factor as u128;
        proof {
            assert(d * jf <= d * 1000) by (nonlinear_arith)
                requires
                    jf <= 1000,
            ;
            assert(d * 1000 * 500 <= limit * 500_000) by (nonlinear_arith)
                requires
                    d < limit,
            ;
        }
        let x: u128 = if sample >= 500 {
            proof {
                assert(d * jf * (sample - 500) <= d * 1000 * 500) by (nonlinear_arith)
                    requires
                        jf <= 1000,
                        sample <= 1000,
                        sample >= 500,
                ;
            }
            d + d * jf * ((sample - 500) as u128) / 1_000_000
        } else {
            proof {
                assert(d * jf * (500 - sample) <= d * 1000 * 500) by (nonlinear_arith)
                    requires
                        jf <= 1000,
                        sample < 500,
                ;
                lemma_jitter_bounds(d as nat, jf as nat, sample as nat);
            }
            d - d * jf * ((500 - sample) as u128) / 1_000_000
        };
        proof {
            lemma_jitter_bounds(d as nat, jf as nat, sample as nat);
        }
        let y = if x < 100 {
            100
        } else {
            x
        };
        if y <= self.max_delay as u128 {
            y as u64
        } else {
            self.max_delay
        }
    }

    /// The delay before retry `retry_count`, in milliseconds, with a random
    /// jitter; it lies between the 100 ms floor (or `max_delay`, if lower) and
    /// `max_delay`.
    pub fn get_delay(&self, retry_count: usize) -> (r: u64)
        requires
            self.backoff_multiplier >= 1000,
            self.jitter_factor <= 1000,
        ensures
            exists|sample: nat| sample <= 1000 && r == retry_delay(*self, retry_count as nat, sample),
            r <= self.max_delay,
    {
        let draw: u64 = rand::random::<u64>();
        let sample = draw % 1001;
        self.delay_with_sample(retry_count, sample)
    }
}

/// What the retries of one worker cost: how many, the total delay (ms),
/// and each error with the delay it caused.
#[derive(Debug)]
pub struct RetryStats {
    pub total_retries: usize,
    pub total_retry_time: u64,
    pub retry_history: Vec<(DownloadError, u64)>,
}

impl RetryStats {
    /// No retries yet.
    pub fn new() -> (r: Self)
        ensures
            r.total_retries == 0,
            r.total_retry_time == 0,
            r.retry_history@.len() == 0,
    {
        RetryStats { total_retries: 0, total_retry_time: 0, retry_history: Vec::new() }
    }

    /// Records one retry after `error`, waiting `delay` ms (counters saturate).
    pub fn record(&mut self, error: DownloadError, delay: u64)
        ensures
            final(self).retry_history@ == old(self).retry_history@.push((error, delay)),
            final(self).total_retries == (if old(self).total_retries < usize::MAX {
                old(self).total_retries + 1
            } else {
                old(self).total_retries as int
            }),
            final(self).total_retry_time == (if old(self).total_retry_time as int + delay <= u64::MAX {
                old(self).total_retry_time + delay
            } else {
                u64::MAX as int
            }),
    {
        if self.total_retries < usize::MAX {
            self.total_retries = self.total_retries + 1;
        }
        self.total_retry_time = if self.total_retry_time <= u64::MAX - delay {
            self.total_retry_time + delay
        } else {
            u64::MAX
        };
        self.retry_history.push((error, delay));
    }
}

/// Per-attempt retry accounting with a doubling delay.
#[derive(Debug)]
pub struct RetryContext {
    pub max_retries: u32,
    pub current_retries: u32,
    /// Delay before the first retry, in milliseconds.
    pub base_delay: u64,
    /// Upper bound of any delay, in milliseconds.
    pub max_delay: u64,
    pub last_retry_time: Option<Instant>,
}

impl RetryContext {
    /// A context with no retries used yet.
    pub fn new(max_retries: u32, base_delay: u64, max_delay: u64) -> (r: Self)
        ensures
            r.max_retries == max_retries,
            r.current_retries == 0,
            r.base_delay == base_delay,
            r.max_delay == max_delay,
            r.last_retry_time is None,
    {
        RetryContext { max_retries, current_retries: 0, base_delay, max_delay, last_retry_time: None }
    }

    /// Whether another attempt is allowed after `error`: the budget is not used up
    /// and the error is retryable under the default substrings.
    pub fn should_retry(&self, error: &DownloadError) -> (r: bool)
        ensures
            r == (self.current_retries < self.max_retries && retryable_with(
                *error,
                default_patterns(),
            )),
    {
        if self.current_retries >= self.max_retries {
            return false;
        }
        let patterns = default_retryable_errors();
        is_retryable_with(error, &patterns)
    }

    /// `base_delay * 2^current_retries`, capped at `max_delay` (milliseconds).
    pub fn get_next_delay(&self) -> (r: u64)
        ensures
            r == min_nat(
                doubled(self.base_delay as nat, self.current_retries as nat),
                self.max_delay as nat,
            ),
    {
        let n = self.current_retries;
        let cap = self.max_delay as u128;
        let mut d: u128 = self.base_delay as u128;
        let mut i: u32 = 0;
        while i < n && d < cap
            invariant
                i <= n,
                n == self.current_retries,
                cap == self.max_delay,
                d == doubled(self.base_delay as nat, i as nat),
                cap <= u64::MAX,
            decreases n - i,
        {
            d = d * 2;
            i += 1;
        }
        proof {
            lemma_doubled_monotone(self.base_delay as nat, i as nat, n as nat);
        }
        if d < cap {
            d as u64
        } else {
            self.max_delay
        }
    }

    /// Counts one more retry, saturating at `u32::MAX`, and stamps the time.
    pub fn record_retry(&mut self)
        ensures
            final(self).current_retries == (if old(self).current_retries < u32::MAX {
                old(self).current_retries + 1
            } else {
                old(self).current_retries as int
            }),
            final(self).max_retries == old(self).max_retries,
            final(self).base_delay == old(self).base_delay,
            final(self).max_delay == old(self).max_delay,
            final(self).last_retry_time is Some,
    {
        if self.current_retries < u32::MAX {
            self.current_retries = self.current_retries + 1;
        }
        self.last_retry_time = Some(Instant::now());
    }

    /// Forgets all retries.
    pub fn reset(&mut self)
        ensures
            final(self).current_retries == 0,
            final(self).last_retry_time is None,
            final(self).max_retries == old(self).max_retries,
            final(self).base_delay == old(self).base_delay,
            final(self).max_delay == old(self).max_delay,
    {
        self.current_retries = 0;
        self.last_retry_time = None;
    }

    /// Retries used so far.
    pub fn current_retries(&self) -> (r: u32)
        ensures
            r == self.current_retries,
    {
        self.current_retries
    }

    /// Whether the budget is used up.
    pub fn is_max_retries_reached(&self) -> (r: bool)
        ensures
            r == (self.current_retries >= self.max_retries),
    {
        self.current_retries >= self.max_retries
    }
}

} // verus!
