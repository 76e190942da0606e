use std::str::FromStr;
use multidown::progress::{format_time, DownloadProtocol, FileProgress, ProgressManager};

#[test]
fn test_protocol_detection() {
    assert_eq!(DownloadProtocol::from_str("http").unwrap(), DownloadProtocol::HTTP);
    assert_eq!(DownloadProtocol::from_str("https").unwrap(), DownloadProtocol::HTTPS);
    assert_eq!(DownloadProtocol::from_str("ftp").unwrap(), DownloadProtocol::FTP);
    assert_eq!(DownloadProtocol::from_str("sftp").unwrap(), DownloadProtocol::SFTP);
    assert_eq!(DownloadProtocol::from_str("ftps").unwrap(), DownloadProtocol::FTPS);
    assert_eq!(DownloadProtocol::from_str("magnet").unwrap(), DownloadProtocol::Magnet);
    assert_eq!(DownloadProtocol::from_str("bt").unwrap(), DownloadProtocol::BT);
    assert!(DownloadProtocol::from_str("invalid").is_err());
}

#[test]
fn protocol_names_ignore_case() {
    assert_eq!(DownloadProtocol::parse("HTTPS"), Some(DownloadProtocol::HTTPS));
    assert_eq!(DownloadProtocol::parse("Magnet"), Some(DownloadProtocol::Magnet));
    assert_eq!(DownloadProtocol::parse_lowercase("HTTP"), None);
    assert_eq!(DownloadProtocol::parse(""), None);
}

#[test]
fn test_file_progress_creation() {
    let progress = FileProgress::new("https://example.com/file.txt", "/tmp/file.txt", 1000, 100);
    assert_eq!(progress.url, "https://example.com/file.txt");
    assert_eq!(progress.file, "/tmp/file.txt");
    assert_eq!(progress.total_size, 1000);
    assert_eq!(progress.chunks.len(), 10);
    let percentage = (progress.get_downloaded_bytes() as f32 / progress.total_size as f32) * 100.0;
    assert_eq!(percentage, 0.0);
}

#[test]
fn file_progress_counts_downloaded_chunks() {
    let mut p = FileProgress::new("u", "out.bin", 250, 100);
    assert_eq!(p.chunks.len(), 3);
    assert_eq!((p.chunks[2].start, p.chunks[2].end, p.chunks[2].index), (200, 249, 2));
    assert_eq!(p.chunks[2].size(), 50);
    assert!(p.has_incomplete_chunks());
    p.chunks[0].downloaded = true;
    p.chunks[2].downloaded = true;
    assert_eq!(p.get_downloaded_bytes(), 150);
    p.chunks[1].downloaded = true;
    assert!(!p.has_incomplete_chunks());
    assert_eq!(p.get_downloaded_bytes(), 250);
    assert_eq!(p.get_progress_path(), "out.bin.progress");
}

#[test]
fn time_is_rendered_as_hours_minutes_seconds() {
    assert_eq!(format_time(0), "00:00:00");
    assert_eq!(format_time(3661), "01:01:01");
    assert_eq!(format_time(86399), "23:59:59");
    assert_eq!(format_time(360000), "100:00:00");
}

#[test]
fn progress_manager_keeps_total() {
    assert_eq!(ProgressManager::new(77).total_size, 77);
}
