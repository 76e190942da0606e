//! Error taxonomy of the download engine and its classification.
use vstd::prelude::*;
use crate::text::{decimal, push_decimal};

verus! {

/// Errors of the download engine.
#[derive(Debug)]
pub enum DownloadError {
    NetworkError(String),
    IoError(String),
    InvalidUrl(String),
    UnsupportedProtocol(String),
    FileExists(String),
    InsufficientSpace { required: u64, available: u64 },
    PermissionError(String),
    Timeout,
    Cancelled,
    Paused,
    MaxRetriesExceeded(u32),
    SizeMismatch { expected: u64, actual: u64 },
    ChecksumMismatch { expected: String, actual: String },
    ServerError(String),
    Unknown(String),
    ResumeFailed(String),
}

/// How serious an error is.
#[derive(Clone, Copy, Debug, PartialEq, Eq, Structural)]
pub enum ErrorSeverity {
    /// Not worth retrying.
    Fatal,
    /// Transient; retrying is expected to help.
    Temporary,
    /// May be retried.
    Retryable,
}

/// Errors that never succeed on a retry.
pub open spec fn fatal_kind(e: DownloadError) -> bool {
    match e {
        DownloadError::InvalidUrl(_) => true,
        DownloadError::FileExists(_) => true,
        DownloadError::SizeMismatch { .. } => true,
        DownloadError::ChecksumMismatch { .. } => true,
        DownloadError::ResumeFailed(_) => true,
        DownloadError::PermissionError(_) => true,
        DownloadError::InsufficientSpace { .. } => true,
        _ => false,
    }
}

/// Transport-level, transient errors.
pub open spec fn temporary_kind(e: DownloadError) -> bool {
    match e {
        DownloadError::Timeout => true,
        DownloadError::NetworkError(_) => true,
        DownloadError::ServerError(_) => true,
        _ => false,
    }
}

/// Errors that a retry loop may consider at all.
pub open spec fn retryable_kind(e: DownloadError) -> bool {
    match e {
        DownloadError::NetworkError(_) => true,
        DownloadError::Timeout => true,
        DownloadError::ServerError(_) => true,
        DownloadError::IoError(_) => true,
        _ => false,
    }
}

pub open spec fn severity_of(e: DownloadError) -> ErrorSeverity {
    if fatal_kind(e) {
        ErrorSeverity::Fatal
    } else if temporary_kind(e) {
        ErrorSeverity::Temporary
    } else {
        ErrorSeverity::Retryable
    }
}

/// The human-readable text of an error.
pub open spec fn error_text(e: DownloadError) -> Seq<char> {
    match e {
        DownloadError::NetworkError(m) => "网络错误: "@ + m@,
        DownloadError::IoError(m) => "IO错误: "@ + m@,
        DownloadError::InvalidUrl(m) => "无效的URL: "@ + m@,
        DownloadError::UnsupportedProtocol(m) => "不支持的协议: "@ + m@,
        DownloadError::FileExists(m) => "文件已存在: "@ + m@,
        DownloadError::InsufficientSpace { required, available } => "磁盘空间不足: 需要 "@ + decimal(
            required as nat,
        ) + " 字节, 可用 "@ + decimal(available as nat) + " 字节"@,
        DownloadError::PermissionError(m) => "权限错误: "@ + m@,
        DownloadError::Timeout => "下载超时"@,
        DownloadError::Cancelled => "下载被取消"@,
        DownloadError::Paused => "下载暂停"@,
        DownloadError::MaxRetriesExceeded(n) => "重试次数超过限制: "@ + decimal(n as nat),
        DownloadError::SizeMismatch { expected, actual } => "文件大小不匹配: 预期 "@ + decimal(
            expected as nat,
        ) + " 字节, 实际 "@ + decimal(actual as nat) + " 字节"@,
        DownloadError::ChecksumMismatch { expected, actual } => "校验和不匹配: 预期 "@ + expected@
            + ", 实际 "@ + actual@,
        DownloadError::ServerError(m) => "服务器错误: "@ + m@,
        DownloadError::Unknown(m) => "未知错误: "@ + m@,
        DownloadError::ResumeFailed(m) => "续传失败: "@ + m@,
    }
}

fn owned(s: &str) -> (r: String)
    ensures
        r@ == s@,
{
    String::from_str(s)
}

impl Clone for DownloadError {
    fn clone(&self) -> (r: Self)
        ensures
            r == *self,
    {
        match self {
            DownloadError::NetworkError(m) => DownloadError::NetworkError(m.clone()),
            DownloadError::IoError(m) => DownloadError::IoError(m.clone()),
            DownloadError::InvalidUrl(m) => DownloadError::InvalidUrl(m.clone()),
            DownloadError::UnsupportedProtocol(m) => DownloadError::UnsupportedProtocol(m.clone()),
            DownloadError::FileExists(m) => DownloadError::FileExists(m.clone()),
            DownloadError::InsufficientSpace { required, available } => {
                DownloadError::InsufficientSpace { required: *required, available: *available }
            },
            DownloadError::PermissionError(m) => DownloadError::PermissionError(m.clone()),
            DownloadError::Timeout => DownloadError::Timeout,
            DownloadError::Cancelled => DownloadError::Cancelled,
            DownloadError::Paused => DownloadError::Paused,
            DownloadError::MaxRetriesExceeded(n) => DownloadError::MaxRetriesExceeded(*n),
            DownloadError::SizeMismatch { expected, actual } => {
                DownloadError::SizeMismatch { expected: *expected, actual: *actual }
            },
            DownloadError::ChecksumMismatch { expected, actual } => {
                DownloadError::ChecksumMismatch { expected: expected.clone(), actual: actual.clone() }
            },
            DownloadError::ServerError(m) => DownloadError::ServerError(m.clone()),
            DownloadError::Unknown(m) => DownloadError::Unknown(m.clone()),
            DownloadError::ResumeFailed(m) => DownloadError::ResumeFailed(m.clone()),
        }
    }
}

impl DownloadError {
    /// A transport failure.
    pub fn network_error(msg: &str) -> (r: Self)
        ensures
            r matches DownloadError::NetworkError(m) && m@ == msg@,
    {
        DownloadError::NetworkError(owned(msg))
    }

    /// A local I/O failure.
    pub fn io_error(msg: &str) -> (r: Self)
        ensures
            r matches DownloadError::IoError(m) && m@ == msg@,
    {
        DownloadError::IoError(owned(msg))
    }

    /// A URL that failed syntax validation.
    pub fn invalid_url(msg: &str) -> (r: Self)
        ensures
            r matches DownloadError::InvalidUrl(m) && m@ == msg@,
    {
        DownloadError::InvalidUrl(owned(msg))
    }

    /// The output path is already present.
    pub fn file_exists(msg: &str) -> (r: Self)
        ensures
            r matches DownloadError::FileExists(m) && m@ == msg@,
    {
        DownloadError::FileExists(owned(msg))
    }

    /// A file or directory could not be created.
    pub fn permission_error(msg: &str) -> (r: Self)
        ensures
            r matches DownloadError::PermissionError(m) && m@ == msg@,
    {
        DownloadError::PermissionError(owned(msg))
    }

    /// A non-success HTTP status.
    pub fn server_error(msg: &str) -> (r: Self)
        ensures
            r matches DownloadError::ServerError(m) && m@ == msg@,
    {
        DownloadError::ServerError(owned(msg))
    }

    /// An unclassified failure.
    pub fn unknown(msg: &str) -> (r: Self)
        ensures
            r matches DownloadError::Unknown(m) && m@ == msg@,
    {
        DownloadError::Unknown(owned(msg))
    }

    /// A resume record whose validators no longer match the server.
    pub fn resume_failed(msg: &str) -> (r: Self)
        ensures
            r matches DownloadError::ResumeFailed(m) && m@ == msg@,
    {
        DownloadError::ResumeFailed(owned(msg))
    }

    /// An I/O error, prefixed with what was being done.
    pub fn io_error_with_context(context: &str, error: &str) -> (r: Self)
        ensures
            r matches DownloadError::IoError(m) && m@ == context@ + ": "@ + error@,
    {
        let mut m = owned(context);
        m.append(": ");
        m.append(error);
        DownloadError::IoError(m)
    }

    /// A network error, prefixed with what was being done.
    pub fn network_error_with_context(context: &str, error: &str) -> (r: Self)
        ensures
            r matches DownloadError::NetworkError(m) && m@ == context@ + ": "@ + error@,
    {
        let mut m = owned(context);
        m.append(": ");
        m.append(error);
        DownloadError::NetworkError(m)
    }

    /// A server error carrying the HTTP status code.
    pub fn server_error_with_context(context: &str, status: u16) -> (r: Self)
        ensures
            r matches DownloadError::ServerError(m) && m@ == context@ + ": HTTP "@ + decimal(
                status as nat,
            ),
    {
        let mut m = owned(context);
        m.append(": HTTP ");
        push_decimal(&mut m, status as u64);
        DownloadError::ServerError(m)
    }

    /// Whether the error kind may be retried at all.
    pub fn is_retryable(&self) -> (r: bool)
        ensures
            r == retryable_kind(*self),
    {
        match self {
            DownloadError::NetworkError(_) => true,
            DownloadError::Timeout => true,
            DownloadError::ServerError(_) => true,
            DownloadError::IoError(_) => true,
            _ => false,
        }
    }

    /// Whether the error is fatal for the task.
    pub fn is_fatal(&self) -> (r: bool)
        ensures
            r == fatal_kind(*self),
    {
        match self {
            DownloadError::InvalidUrl(_) => true,
            DownloadError::FileExists(_) => true,
            DownloadError::SizeMismatch { .. } => true,
            DownloadError::ChecksumMismatch { .. } => true,
            DownloadError::ResumeFailed(_) => true,
            DownloadError::PermissionError(_) => true,
            DownloadError::InsufficientSpace { .. } => true,
            _ => false,
        }
    }

    /// Whether the error is a transient transport condition.
    pub fn is_temporary(&self) -> (r: bool)
        ensures
            r == temporary_kind(*self),
    {
        match self {
            DownloadError::Timeout => true,
            DownloadError::NetworkError(_) => true,
            DownloadError::ServerError(_) => true,
            _ => false,
        }
    }

    /// Fatal first, then temporary, otherwise retryable.
    pub fn severity(&self) -> (r: ErrorSeverity)
        ensures
            r == severity_of(*self),
    {
        if self.is_fatal() {
            ErrorSeverity::Fatal
        } else if self.is_temporary() {
            ErrorSeverity::Temporary
        } else {
            ErrorSeverity::Retryable
        }
    }

    /// A suggested remedy, for the kinds that have one.
    pub fn get_suggestion(&self) -> (r: Option<&'static str>)
        ensures
            r is Some <==> (match *self {
                DownloadError::NetworkError(_) => true,
                DownloadError::Timeout => true,
                DownloadError::ServerError(_) => true,
                DownloadError::InvalidUrl(_) => true,
                DownloadError::FileExists(_) => true,
                DownloadError::PermissionError(_) => true,
                DownloadError::InsufficientSpace { .. } => true,
                DownloadError::SizeMismatch { .. } => true,
                DownloadError::ResumeFailed(_) => true,
                _ => false,
            }),
    {
        match self {
            DownloadError::NetworkError(_) => Some("检查网络连接，稍后重试"),
            DownloadError::Timeout => Some("网络超时，请检查网络连接或增加超时时间"),
            DownloadError::ServerError(_) => Some("服务器暂时不可用，请稍后重试"),
            DownloadError::InvalidUrl(_) => Some("请检查URL格式是否正确"),
            DownloadError::FileExists(_) => Some("文件已存在，请删除或重命名"),
            DownloadError::PermissionError(_) => Some("权限不足，请检查文件权限或使用管理员权限"),
            DownloadError::InsufficientSpace { .. } => Some("磁盘空间不足，请清理磁盘空间"),
            DownloadError::SizeMismatch { .. } => Some("文件大小不匹配，可能是下载不完整"),
            DownloadError::ResumeFailed(_) => Some("断点续传失败，将重新下载"),
            _ => None,
        }
    }

    /// The human-readable text of the error.
    pub fn message(&self) -> (r: String)
        ensures
            r@ == error_text(*self),
    {
        let mut s = String::new();
        let ghost e = *self;
        match self {
            DownloadError::NetworkError(m) => {
                s.append("网络错误: ");
                s.append(m.as_str());
            },
            DownloadError::IoError(m) => {
                s.append("IO错误: ");
                s.append(m.as_str());
            },
            DownloadError::InvalidUrl(m) => {
                s.append("无效的URL: ");
                s.append(m.as_str());
            },
            DownloadError::UnsupportedProtocol(m) => {
                s.append("不支持的协议: ");
                s.append(m.as_str());
            },
            DownloadError::FileExists(m) => {
                s.append("文件已存在: ");
                s.append(m.as_str());
            },
            DownloadError::InsufficientSpace { required, available } => {
                s.append("磁盘空间不足: 需要 ");
                push_decimal(&mut s, *required);
                s.append(" 字节, 可用 ");
                push_decimal(&mut s, *available);
                s.append(" 字节");
            },
            DownloadError::PermissionError(m) => {
                s.append("权限错误: ");
                s.append(m.as_str());
            },
            DownloadError::Timeout => {
                s.append("下载超时");
            },
            DownloadError::Cancelled => {
                s.append("下载被取消");
            },
            DownloadError::Paused => {
                s.append("下载暂停");
            },
            DownloadError::MaxRetriesExceeded(n) => {
                s.append("重试次数超过限制: ");
                push_decimal(&mut s, *n as u64);
            },
            DownloadError::SizeMismatch { expected, actual } => {
                s.append("文件大小不匹配: 预期 ");
                push_decimal(&mut s, *expected);
                s.append(" 字节, 实际 ");
                push_decimal(&mut s, *actual);
                s.append(" 字节");
            },
            DownloadError::ChecksumMismatch { expected, actual } => {
                s.append("校验和不匹配: 预期 ");
                s.append(expected.as_str());
                s.append(", 实际 ");
                s.append(actual.as_str());
            },
            DownloadError::ServerError(m) => {
                s.append("服务器错误: ");
                s.append(m.as_str());
            },
            DownloadError::Unknown(m) => {
                s.append("未知错误: ");
                s.append(m.as_str());
            },
            DownloadError::ResumeFailed(m) => {
                s.append("续传失败: ");
                s.append(m.as_str());
            },
        }
        proof {
            assert(s@ =~= error_text(e));
        }
        s
    }
}

} // verus!
