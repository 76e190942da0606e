use multidown::error::{DownloadError, ErrorSeverity};

#[test]
fn test_error_classification() {
    let network_error = DownloadError::network_error("连接失败");
    assert!(network_error.is_retryable());
    assert!(!network_error.is_fatal());
    assert!(network_error.is_temporary());

    let invalid_url = DownloadError::invalid_url("无效URL");
    assert!(!invalid_url.is_retryable());
    assert!(invalid_url.is_fatal());
    assert!(!invalid_url.is_temporary());

    let timeout = DownloadError::Timeout;
    assert!(timeout.is_retryable());
    assert!(!timeout.is_fatal());
    assert!(timeout.is_temporary());
}

#[test]
fn test_error_severity() {
    assert_eq!(DownloadError::network_error("test").severity(), ErrorSeverity::Temporary);
    assert_eq!(DownloadError::invalid_url("test").severity(), ErrorSeverity::Fatal);
    assert_eq!(DownloadError::IoError("test".into()).severity(), ErrorSeverity::Retryable);
}

#[test]
fn test_error_suggestions() {
    assert!(DownloadError::network_error("test").get_suggestion().is_some());
    assert!(DownloadError::invalid_url("test").get_suggestion().is_some());
    assert!(DownloadError::Timeout.get_suggestion().is_some());
}

#[test]
fn test_error_with_context() {
    let io_error = std::io::Error::new(std::io::ErrorKind::NotFound, "文件不存在");
    let error = DownloadError::io_error_with_context("写入文件", &io_error.to_string());
    assert!(matches!(error, DownloadError::IoError(_)));
    assert!(error.message().contains("写入文件"));
}

#[test]
fn messages_carry_kind_and_payload() {
    assert_eq!(DownloadError::network_error("x").message(), "网络错误: x");
    assert_eq!(DownloadError::Timeout.message(), "下载超时");
    assert_eq!(
        DownloadError::SizeMismatch { expected: 10, actual: 7 }.message(),
        "文件大小不匹配: 预期 10 字节, 实际 7 字节"
    );
    assert_eq!(DownloadError::server_error_with_context("GET", 503).message(), "服务器错误: GET: HTTP 503");
    assert_eq!(DownloadError::resume_failed("etag").message(), "续传失败: etag");
}

#[test]
fn every_fatal_kind_is_fatal() {
    let fatal = vec![
        DownloadError::invalid_url("u"),
        DownloadError::file_exists("f"),
        DownloadError::SizeMismatch { expected: 1, actual: 2 },
        DownloadError::ChecksumMismatch { expected: String::from("a"), actual: String::from("b") },
        DownloadError::resume_failed("r"),
        DownloadError::permission_error("p"),
        DownloadError::InsufficientSpace { required: 2, available: 1 },
    ];
    for e in &fatal {
        assert!(e.is_fatal());
        assert_eq!(e.severity(), ErrorSeverity::Fatal);
        let checksum = matches!(e, DownloadError::ChecksumMismatch { .. });
        assert_eq!(e.get_suggestion().is_some(), !checksum);
    }
    assert!(!DownloadError::Cancelled.is_fatal());
    assert!(DownloadError::Paused.get_suggestion().is_none());
    assert_eq!(DownloadError::unknown("?").severity(), ErrorSeverity::Retryable);
}
