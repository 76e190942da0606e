use multidown::config::{Args, Config};
use multidown::error::DownloadError;

#[test]
fn test_config_default() {
    let config = Config::default();
    assert_eq!(config.speed_limit_kb, 0);
    assert_eq!(config.thread_count, 4);
    assert_eq!(config.max_concurrent_downloads, 3);
    assert_eq!(config.timeout, 30);
    assert_eq!(config.retry_count, 3);
}

#[test]
fn test_config_validation() {
    let mut config = Config::default();
    assert!(config.validate().is_ok());

    config.thread_count = 0;
    assert!(config.validate().is_err());

    config = Config::default();
    config.max_concurrent_downloads = 0;
    assert!(config.validate().is_err());
}

#[test]
fn test_config_summary() {
    let config = Config::default();
    let summary = config.get_summary();

    assert!(summary.contains("配置摘要"));
    assert!(summary.contains("下载目录"));
    assert!(summary.contains("线程数"));
    assert!(summary.contains("不限速"));
}

#[test]
fn validation_names_the_first_broken_rule() {
    let mut config = Config::default();
    config.chunk_size = 0;
    config.retry_count = 0;
    match config.validate() {
        Err(DownloadError::Unknown(m)) => assert_eq!(m, "分块大小必须大于0"),
        _ => panic!("expected an error"),
    }
    let config = Config { retry_backoff_multiplier: 999, ..Config::default() };
    match config.validate() {
        Err(DownloadError::Unknown(m)) => assert_eq!(m, "退避倍数不能小于1"),
        _ => panic!("expected an error"),
    }
    let config = Config { retry_jitter_factor: 1001, ..Config::default() };
    assert!(config.validate().is_err());
    let config = Config { max_concurrent_chunks: 0, ..Config::default() };
    assert!(config.validate().is_err());
    let mut config = Config::default();
    config.download_dir = String::new();
    match config.validate() {
        Err(DownloadError::Unknown(m)) => assert_eq!(m, "下载目录不能为空"),
        _ => panic!("expected an error"),
    }
}

#[test]
fn summary_text_is_exact() {
    let mut config = Config::default();
    config.speed_limit_kb = 1024;
    config.enable_resume = false;
    assert_eq!(
        config.get_summary(),
        "配置摘要:\n- 下载目录: ./downloads\n- 线程数: 4\n- 并发数: 3\n- 速度限制: 1024 KB/s\n- 超时时间: 30 秒\n- 重试次数: 3\n- 断点续传: 禁用\n- 分块下载: 启用"
    );
}

#[test]
fn merge_from_args_overrides_given_values_only() {
    let mut config = Config::default();
    let args = Args {
        urls: vec![],
        file: None,
        config: String::from("x.conf"),
        edit_config: false,
        speed_limit_kb: Some(512),
        download_dir: String::new(),
        file_name: None,
        thread_count: Some(8),
    };
    config.merge_from_args(&args);
    assert_eq!(config.speed_limit_kb, 512);
    assert_eq!(config.thread_count, 8);
    assert_eq!(config.download_dir, "./downloads");
    let args = Args { speed_limit_kb: None, download_dir: String::from("/tmp/d"), thread_count: None, ..args };
    config.merge_from_args(&args);
    assert_eq!(config.speed_limit_kb, 512);
    assert_eq!(config.download_dir, "/tmp/d");
}

#[test]
fn tutorial_header_mentions_usage_and_troubleshooting() {
    let t = Config::generate_tutorial_content();
    assert!(t.contains("MultiDown 配置文件"));
    assert!(t.contains("使用示例"));
    assert!(t.contains("故障排除"));
}

#[test]
fn retry_settings_are_converted_to_milliseconds() {
    let config = Config::default();
    let s = config.retry_strategy();
    assert_eq!(s.max_retries, 3);
    assert_eq!(s.base_delay, 5000);
    assert_eq!(s.max_delay, 60000);
    assert_eq!((s.backoff_multiplier, s.jitter_factor), (2000, 100));
    assert_eq!(s.retryable_errors.len(), 12);
    let custom = Config { retry_backoff_multiplier: 1500, retryable_errors: vec![String::from("eof")], ..Config::default() };
    let cs = custom.retry_strategy();
    assert_eq!(cs.backoff_multiplier, 1500);
    assert_eq!(cs.retryable_errors, vec![String::from("eof")]);
    let c = config.retry_context();
    assert_eq!(c.max_retries, 3);
    assert_eq!(c.base_delay, 5000);
}
