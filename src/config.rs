//! Configuration knobs consumed by the engine, their defaults, validation and
//! command-line overrides.
use vstd::prelude::*;
use crate::error::DownloadError;
use crate::retry::{
    RetryContext, RetryStrategy, default_patterns, default_retryable_errors, strings_view,
};
use crate::text::{decimal, push_decimal};

verus! {

/// Engine configuration.
#[derive(Debug)]
pub struct Config {
    /// Rate cap in KiB/s; 0 means unlimited.
    pub speed_limit_kb: u64,
    pub download_dir: String,
    pub thread_count: usize,
    pub max_concurrent_downloads: usize,
    /// Request timeout in seconds.
    pub timeout: u64,
    pub user_agent: String,
    pub enable_resume: bool,
    pub enable_chunked_download: bool,
    /// Target bytes per chunk.
    pub chunk_size: usize,
    /// Sizes up to this many bytes are downloaded over one connection.
    pub min_chunk_size: usize,
    pub retry_count: usize,
    /// First retry delay in seconds.
    pub retry_delay: u64,
    /// Largest retry delay in seconds.
    pub retry_max_delay: u64,
    pub auto_resume_on_startup: bool,
    /// Chunks in flight per task.
    pub max_concurrent_chunks: usize,
    /// Backoff multiplier in thousandths (2000 doubles each delay).
    pub retry_backoff_multiplier: u64,
    /// Jitter in thousandths of the delay.
    pub retry_jitter_factor: u64,
    /// Substrings that make I/O and unclassified errors retryable.
    pub retryable_errors: Vec<String>,
}

/// Command-line values that override the configuration.
#[derive(Debug)]
pub struct Args {
    pub urls: Vec<String>,
    pub file: Option<String>,
    pub config: String,
    pub edit_config: bool,
    pub speed_limit_kb: Option<u64>,
    pub download_dir: String,
    pub file_name: Option<String>,
    pub thread_count: Option<usize>,
}

/// The first rule a configuration breaks, as its message; `None` if valid.
pub open spec fn config_problem(c: Config) -> Option<Seq<char>> {
    if c.thread_count == 0 {
        Some("线程数必须大于0"@)
    } else if c.max_concurrent_downloads == 0 {
        Some("并发下载数必须大于0"@)
    } else if c.timeout == 0 {
        Some("超时时间必须大于0"@)
    } else if c.download_dir@.len() == 0 {
        Some("下载目录不能为空"@)
    } else if c.chunk_size == 0 {
        Some("分块大小必须大于0"@)
    } else if c.min_chunk_size == 0 {
        Some("最小分块大小必须大于0"@)
    } else if c.retry_count == 0 {
        Some("重试次数必须大于0"@)
    } else if c.max_concurrent_chunks == 0 {
        Some("并发分块数必须大于0"@)
    } else if c.retry_backoff_multiplier < 1000 {
        Some("退避倍数不能小于1"@)
    } else if c.retry_jitter_factor > 1000 {
        Some("抖动因子不能大于1"@)
    } else {
        None
    }
}

pub open spec fn on_off(b: bool) -> Seq<char> {
    if b {
        "启用"@
    } else {
        "禁用"@
    }
}

/// The summary text of a configuration.
pub open spec fn summary_text(c: Config) -> Seq<char> {
    "配置摘要:\n- 下载目录: "@ + c.download_dir@ + "\n- 线程数: "@ + decimal(c.thread_count as nat)
        + "\n- 并发数: "@ + decimal(c.max_concurrent_downloads as nat) + "\n- 速度限制: "@ + (if c.speed_limit_kb
        == 0 {
        "不限速"@
    } else {
        decimal(c.speed_limit_kb as nat)
    }) + " KB/s\n- 超时时间: "@ + decimal(c.timeout as nat) + " 秒\n- 重试次数: "@ + decimal(
        c.retry_count as nat,
    ) + "\n- 断点续传: "@ + on_off(c.enable_resume) + "\n- 分块下载: "@ + on_off(
        c.enable_chunked_download,
    )
}

pub open spec fn default_config(c: Config) -> bool {
    &&& c.speed_limit_kb == 0
    &&& c.download_dir@ == "./downloads"@
    &&& c.thread_count == 4
    &&& c.max_concurrent_downloads == 3
    &&& c.timeout == 30
    &&& c.user_agent@ == "MultiDown/1.0"@
    &&& c.enable_resume
    &&& c.enable_chunked_download
    &&& c.chunk_size == 8192
    &&& c.min_chunk_size == 1024
    &&& c.retry_count == 3
    &&& c.retry_delay == 5
    &&& c.retry_max_delay == 60
    &&& c.auto_resume_on_startup
    &&& c.max_concurrent_chunks == 3
    &&& c.retry_backoff_multiplier == 2000
    &&& c.retry_jitter_factor == 100
    &&& strings_view(c.retryable_errors@) == default_patterns()
}

impl Default for Config {
    fn default() -> (r: Self)
        ensures
            default_config(r),
    {
        Config {
            speed_limit_kb: 0,
            download_dir: String::from_str("./downloads"),
            thread_count: 4,
            max_concurrent_downloads: 3,
            timeout: 30,
            user_agent: String::from_str("MultiDown/1.0"),
            enable_resume: true,
            enable_chunked_download: true,
            chunk_size: 8192,
            min_chunk_size: 1024,
            retry_count: 3,
            retry_delay: 5,
            retry_max_delay: 60,
            auto_resume_on_startup: true,
            max_concurrent_chunks: 3,
            retry_backoff_multiplier: 2000,
            retry_jitter_factor: 100,
            retryable_errors: default_retryable_errors(),
        }
    }
}

impl Clone for Config {
    fn clone(&self) -> (r: Self)
        ensures
            r.speed_limit_kb == self.speed_limit_kb,
            r.download_dir@ == self.download_dir@,
            r.thread_count == self.thread_count,
            r.max_concurrent_downloads == self.max_concurrent_downloads,
            r.timeout == self.timeout,
            r.user_agent@ == self.user_agent@,
            r.enable_resume == self.enable_resume,
            r.enable_chunked_download == self.enable_chunked_download,
            r.chunk_size == self.chunk_size,
            r.min_chunk_size == self.min_chunk_size,
            r.retry_count == self.retry_count,
            r.retry_delay == self.retry_delay,
            r.retry_max_delay == self.retry_max_delay,
            r.auto_resume_on_startup == self.auto_resume_on_startup,
            r.max_concurrent_chunks == self.max_concurrent_chunks,
            r.retry_backoff_multiplier == self.retry_backoff_multiplier,
            r.retry_jitter_factor == self.retry_jitter_factor,
            strings_view(r.retryable_errors@) == strings_view(self.retryable_errors@),
    {
        Config {
            speed_limit_kb: self.speed_limit_kb,
            download_dir: self.download_dir.clone(),
            thread_count: self.thread_count,
            max_concurrent_downloads: self.max_concurrent_downloads,
            timeout: self.timeout,
            user_agent: self.user_agent.clone(),
            enable_resume: self.enable_resume,
            enable_chunked_download: self.enable_chunked_download,
            chunk_size: self.chunk_size,
            min_chunk_size: self.min_chunk_size,
            retry_count: self.retry_count,
            retry_delay: self.retry_delay,
            retry_max_delay: self.retry_max_delay,
            auto_resume_on_startup: self.auto_resume_on_startup,
            max_concurrent_chunks: self.max_concurrent_chunks,
            retry_backoff_multiplier: self.retry_backoff_multiplier,
            retry_jitter_factor: self.retry_jitter_factor,
            retryable_errors: clone_strings(&self.retryable_errors),
        }
    }
}

fn clone_strings(v: &Vec<String>) -> (r: Vec<String>)
    ensures
        strings_view(r@) == strings_view(v@),
{
    let mut out: Vec<String> = Vec::new();
    let mut i: usize = 0;
    while i < v.len()
        invariant
            i <= v@.len(),
            strings_view(out@) == strings_view(v@.subrange(0, i as int)),
        decreases v@.len() - i,
    {
        let ghost before = out@;
        out.push(v[i].clone());
        proof {
            assert(out@ == before.push(v@[i as int]));
            assert(v@.subrange(0, i + 1) =~= v@.subrange(0, i as int).push(v@[i as int]));
            assert(strings_view(before.push(v@[i as int])) =~= strings_view(before).push(v@[i as int]@));
            assert(strings_view(v@.subrange(0, i as int).push(v@[i as int])) =~= strings_view(
                v@.subrange(0, i as int),
            ).push(v@[i as int]@));
        }
        i = i + 1;
    }
    proof {
        assert(v@.subrange(0, v@.len() as int) =~= v@);
    }
    out
}

fn invalid(msg: &str) -> (r: Result<(), DownloadError>)
    ensures
        r matches Err(DownloadError::Unknown(m)) && m@ == msg@,
{
    Err(DownloadError::unknown(msg))
}

impl Config {
    /// The commented header written above a saved configuration.
    pub fn generate_tutorial_content() -> (r: String)
        ensures
            r@ == TUTORIAL@,
    {
        String::from_str(TUTORIAL)
    }

    /// Checks the configuration; the error names the first rule broken.
    pub fn validate(&self) -> (r: Result<(), DownloadError>)
        ensures
            r is Ok <==> config_problem(*self) is None,
            r matches Err(e) ==> (e matches DownloadError::Unknown(m) && config_problem(*self)
                == Some(m@)),
    {
        if self.thread_count == 0 {
            return invalid("线程数必须大于0");
        }
        if self.max_concurrent_downloads == 0 {
            return invalid("并发下载数必须大于0");
        }
        if self.timeout == 0 {
            return invalid("超时时间必须大于0");
        }
        if self.download_dir.as_str().is_empty() {
            return invalid("下载目录不能为空");
        }
        if self.chunk_size == 0 {
            return invalid("分块大小必须大于0");
        }
        if self.min_chunk_size == 0 {
            return invalid("最小分块大小必须大于0");
        }
        if self.retry_count == 0 {
            return invalid("重试次数必须大于0");
        }
        if self.max_concurrent_chunks == 0 {
            return invalid("并发分块数必须大于0");
        }
        if self.retry_backoff_multiplier < 1000 {
            return invalid("退避倍数不能小于1");
        }
        if self.retry_jitter_factor > 1000 {
            return invalid("抖动因子不能大于1");
        }
        Ok(())
    }

    /// Overrides the rate cap, download directory and thread count with the
    /// command-line values that were given (an empty directory is not given).
    pub fn merge_from_args(&mut self, args: &Args)
        ensures
            final(self).speed_limit_kb == (match args.speed_limit_kb {
                Some(v) => v,
                None => old(self).speed_limit_kb,
            }),
            final(self).download_dir@ == (if args.download_dir@.len() == 0 {
                old(self).download_dir@
            } else {
                args.download_dir@
            }),
            final(self).thread_count == (match args.thread_count {
                Some(v) => v,
                None => old(self).thread_count,
            }),
            final(self).max_concurrent_downloads == old(self).max_concurrent_downloads,
            final(self).timeout == old(self).timeout,
            final(self).user_agent@ == old(self).user_agent@,
            final(self).enable_resume == old(self).enable_resume,
            final(self).enable_chunked_download == old(self).enable_chunked_download,
            final(self).chunk_size == old(self).chunk_size,
            final(self).min_chunk_size == old(self).min_chunk_size,
            final(self).retry_count == old(self).retry_count,
            final(self).retry_delay == old(self).retry_delay,
            final(self).retry_max_delay == old(self).retry_max_delay,
            final(self).auto_resume_on_startup == old(self).auto_resume_on_startup,
            final(self).max_concurrent_chunks == old(self).max_concurrent_chunks,
            final(self).retry_backoff_multiplier == old(self).retry_backoff_multiplier,
            final(self).retry_jitter_factor == old(self).retry_jitter_factor,
            strings_view(final(self).retryable_errors@) == strings_view(old(self).retryable_errors@),
    {
        if let Some(speed_limit) = args.speed_limit_kb {
            self.speed_limit_kb = speed_limit;
        }
        if !args.download_dir.as_str().is_empty() {
            self.download_dir = args.download_dir.clone();
        }
        if let Some(thread_count) = args.thread_count {
            self.thread_count = thread_count;
        }
    }

    /// A multi-line, human-readable summary.
    pub fn get_summary(&self) -> (r: String)
        ensures
            r@ == summary_text(*self),
    {
        let mut s = String::from_str("配置摘要:\n- 下载目录: ");
        s.append(self.download_dir.as_str());
        s.append("\n- 线程数: ");
        push_decimal(&mut s, self.thread_count as u64);
        s.append("\n- 并发数: ");
        push_decimal(&mut s, self.max_concurrent_downloads as u64);
        s.append("\n- 速度限制: ");
        if self.speed_limit_kb == 0 {
            s.append("不限速");
        } else {
            push_decimal(&mut s, self.speed_limit_kb);
        }
        s.append(" KB/s\n- 超时时间: ");
        push_decimal(&mut s, self.timeout);
        s.append(" 秒\n- 重试次数: ");
        push_decimal(&mut s, self.retry_count as u64);
        s.append("\n- 断点续传: ");
        if self.enable_resume {
            s.append("启用");
        } else {
            s.append("禁用");
        }
        s.append("\n- 分块下载: ");
        if self.enable_chunked_download {
            s.append("启用");
        } else {
            s.append("禁用");
        }
        proof {
            assert(s@ =~= summary_text(*self));
        }
        s
    }

    /// The retry policy configured here: `retry_count` retries, delays from
    /// `retry_delay` up to `retry_max_delay` seconds growing by the configured
    /// multiplier, with the configured jitter and retryable substrings.
    pub fn retry_strategy(&self) -> (r: RetryStrategy)
        ensures
            r.max_retries == self.retry_count,
            r.base_delay == self.retry_delay as int * 1000 || (self.retry_delay > u64::MAX / 1000
                && r.base_delay == u64::MAX),
            r.max_delay == self.retry_max_delay as int * 1000 || (self.retry_max_delay > u64::MAX
                / 1000 && r.max_delay == u64::MAX),
            r.backoff_multiplier == self.retry_backoff_multiplier,
            r.jitter_factor == self.retry_jitter_factor,
            strings_view(r.retryable_errors@) == strings_view(self.retryable_errors@),
    {
        RetryStrategy {
            max_retries: self.retry_count,
            base_delay: seconds_to_millis(self.retry_delay),
            max_delay: seconds_to_millis(self.retry_max_delay),
            backoff_multiplier: self.retry_backoff_multiplier,
            jitter_factor: self.retry_jitter_factor,
            retryable_errors: clone_strings(&self.retryable_errors),
        }
    }

    /// A retry context for whole-download attempts, as configured.
    pub fn retry_context(&self) -> (r: RetryContext)
        ensures
            r.max_retries as int == (if self.retry_count <= u32::MAX as usize {
                self.retry_count as int
            } else {
                u32::MAX as int
            }),
            r.current_retries == 0,
    {
        let max: u32 = if self.retry_count <= u32::MAX as usize {
            self.retry_count as u32
        } else {
            u32::MAX
        };
        RetryContext::new(max, seconds_to_millis(self.retry_delay), seconds_to_millis(self.retry_max_delay))
    }
}

/// Seconds as milliseconds, saturating at `u64::MAX`.
pub fn seconds_to_millis(s: u64) -> (r: u64)
    ensures
        s <= u64::MAX / 1000 ==> r == s * 1000,
        s > u64::MAX / 1000 ==> r == u64::MAX,
{
    if s <= u64::MAX / 1000 {
        s * 1000
    } else {
        u64::MAX
    }
}

/// The commented header of a configuration file.
pub const TUTORIAL: &'static str = r#"# MultiDown 配置文件
# ====================
# 
# 这是一个 TOML 格式的配置文件，用于配置 MultiDown 下载管理器的行为。
# 你可以根据需要修改这些设置，然后保存文件。
#
# 配置文件位置：
# - Windows: %APPDATA%/multidown/multidown.conf
# - macOS: ~/Library/Application Support/multidown/multidown.conf  
# - Linux: ~/.config/multidown/multidown.conf
#
# 命令行参数会覆盖配置文件中的设置，优先级：命令行 > 配置文件 > 默认值
#
# 使用示例：
#   multidown https://example.com/file.zip                    # 使用默认配置
#   multidown -l 1000 https://example.com/file.zip           # 限制速度1MB/s
#   multidown -t 8 https://example.com/file.zip              # 使用8个线程
#   multidown -d /path/to/downloads https://example.com/file.zip  # 指定下载目录

# ==================== 下载设置 ====================

# 下载速度限制（KB/s），0 表示不限速
# 示例：1024 = 1MB/s, 5120 = 5MB/s
speed_limit_kb = 0

# 默认下载目录
# 支持相对路径和绝对路径
download_dir = "./downloads"

# 默认线程数（每个下载任务使用的线程数）
# 建议值：2-16，根据网络环境调整
thread_count = 4

# 最大并发下载数（同时进行的下载任务数）
# 建议值：1-5，避免过多任务影响性能
max_concurrent_downloads = 3

# ==================== 网络设置 ====================

# 网络超时时间（秒）
# 如果下载在指定时间内没有响应，会重试
timeout = 30

# User-Agent 字符串
# 某些服务器可能需要特定的 User-Agent
user_agent = "MultiDown/1.0"

# ==================== 高级功能 ====================

# 是否启用断点续传
# 启用后，下载中断可以从断点继续
enable_resume = true

# 是否启用分块下载
# 启用后，大文件会被分成多个块并行下载
enable_chunked_download = true

# 分块大小（字节）
# 建议值：4096-32768，太小影响性能，太大会占用更多内存
chunk_size = 8192

# 最小分块大小（字节）
# 只有文件大小超过此值才会使用分块下载
min_chunk_size = 1024

# ==================== 重试设置 ====================

# 重试次数
# 网络错误时的重试次数
retry_count = 3

# 重试延迟（秒）
# 第一次重试前的等待时间
retry_delay = 5

# 最大重试延迟（秒）
# 重试延迟的最大值（使用指数退避）
retry_max_delay = 60

# ==================== 启动设置 ====================

# 启动时自动恢复未完成的下载
# 启用后，程序启动时会自动恢复上次未完成的下载
auto_resume_on_startup = true

# ==================== 使用说明 ====================
#
# 1. 基本使用：
#    multidown https://example.com/file.zip
#
# 2. 批量下载：
#    multidown -f urls.txt
#    # urls.txt 文件内容（每行一个URL）：
#    # https://example.com/file1.zip
#    # https://example.com/file2.zip
#
# 3. 速度限制：
#    multidown -l 1000 https://example.com/file.zip
#
# 4. 指定线程数：
#    multidown -t 8 https://example.com/file.zip
#
# 5. 指定下载目录：
#    multidown -d /path/to/downloads https://example.com/file.zip
#
# 6. 编辑配置文件：
#    multidown -e
#
# 7. 查看帮助：
#    multidown --help
#
# ==================== 故障排除 ====================
#
# 问题：下载速度很慢
# 解决：增加 thread_count 或检查 speed_limit_kb 设置
#
# 问题：经常下载失败
# 解决：增加 retry_count 或 timeout 值
#
# 问题：大文件下载中断
# 解决：确保 enable_resume = true
#
# 问题：内存占用过高
# 解决：减少 chunk_size 或 max_concurrent_downloads
#
# ==================== 性能调优建议 ====================
#
# 高速网络（100Mbps+）：
#   thread_count = 8-16
#   chunk_size = 16384
#   max_concurrent_downloads = 3-5
#
# 中速网络（10-100Mbps）：
#   thread_count = 4-8
#   chunk_size = 8192
#   max_concurrent_downloads = 2-3
#
# 低速网络（<10Mbps）：
#   thread_count = 2-4
#   chunk_size = 4096
#   max_concurrent_downloads = 1-2

# ==================== 配置项说明 ====================
"#;

} // verus!
