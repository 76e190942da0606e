use multidown::chunk::{ChunkState, FileInfo};
use multidown::config::Config;
use multidown::engine::{
    check_chunk_status, check_probe_status, choose_mode, chunk_attempt_step, file_info_from_headers, parse_u64,
    range_header, retry_probe, verify_chunk_size, verify_single_size, AttemptStep, DownloadMode,
    DownloadTaskActor, NextStep,
};
use multidown::error::DownloadError;
use multidown::manager::TaskStatus;
use multidown::retry::{RetryContext, RetryStats, RetryStrategy};

const MIB: u64 = 1024 * 1024;

fn probe(size: u64, ranges: bool, etag: Option<&str>) -> FileInfo {
    FileInfo { size, supports_range: ranges, last_modified: None, etag: etag.map(String::from) }
}

fn engine(chunk: usize) -> DownloadTaskActor {
    let mut c = Config::default();
    c.chunk_size = chunk;
    c.max_concurrent_chunks = 3;
    DownloadTaskActor::new(c, 7, String::from("http://example.com/big.bin"), String::from("big.bin"))
}

#[test]
fn mode_selection() {
    let c = Config::default();
    assert_eq!(choose_mode(&c, &probe(1000, true, None)), DownloadMode::Single);
    assert_eq!(choose_mode(&c, &probe(1024, true, None)), DownloadMode::Single);
    assert_eq!(choose_mode(&c, &probe(1025, true, None)), DownloadMode::Chunked);
    assert_eq!(choose_mode(&c, &probe(1 << 20, false, None)), DownloadMode::Single);
    let off = Config { enable_chunked_download: false, ..Config::default() };
    assert_eq!(choose_mode(&off, &probe(1 << 20, true, None)), DownloadMode::Single);
}

#[test]
fn request_helpers() {
    assert_eq!(range_header(0, 2097151), "bytes=0-2097151");
    assert!(check_probe_status(200).is_ok());
    assert!(check_probe_status(204).is_ok());
    match check_probe_status(404) {
        Err(DownloadError::ServerError(m)) => assert_eq!(m, "服务器错误: 404"),
        _ => panic!(),
    }
    assert!(check_chunk_status(206).is_ok());
    assert!(check_chunk_status(200).is_ok());
    assert!(check_chunk_status(204).is_err());
    assert!(verify_chunk_size(10, 19, 10).is_ok());
    assert!(matches!(verify_chunk_size(10, 19, 11), Err(DownloadError::SizeMismatch { expected: 10, actual: 11 })));
    assert!(verify_single_size(5, 5).is_ok());
    assert!(matches!(verify_single_size(0, 0), Err(DownloadError::SizeMismatch { expected: 0, actual: 0 })));
    assert!(matches!(verify_single_size(5, 6), Err(DownloadError::SizeMismatch { expected: 5, actual: 6 })));
}

#[test]
fn preflight_checks_url_then_target() {
    let e = engine(100);
    assert!(e.preflight(false).is_ok());
    assert!(matches!(e.preflight(true), Err(DownloadError::FileExists(_))));
    let bad = DownloadTaskActor::new(Config::default(), 1, String::from("not a url"), String::from("x"));
    assert!(matches!(bad.preflight(false), Err(DownloadError::InvalidUrl(_))));
}

#[test]
fn happy_path_ten_mib() {
    let mut e = engine(2 * MIB as usize);
    e.start();
    assert_eq!(e.on_probe(probe(10 * MIB, true, Some("\"abc\""))), DownloadMode::Chunked);
    assert_eq!(e.chunk_manager.as_ref().unwrap().chunks.len(), 5);
    let first = e.dispatch();
    assert_eq!(first.iter().map(|c| c.0).collect::<Vec<_>>(), vec![0, 1, 2]);
    assert_eq!(first[1].1.start, 2 * MIB);
    assert!(e.dispatch().is_empty());
    let mut merged = false;
    let mut pending = first;
    while let Some((i, _)) = pending.pop() {
        let report = e.on_chunk_result(i, Ok(()));
        assert!(report.save_resume.is_some());
        match report.next {
            NextStep::Merge => merged = true,
            NextStep::Continue => pending.extend(e.dispatch()),
            _ => panic!("unexpected step"),
        }
    }
    assert!(merged);
    assert_eq!(e.downloaded, 10 * MIB);
    assert!(e.on_merged(Ok(())));
    assert!(matches!(e.status, TaskStatus::Completed));
}

#[test]
fn transient_failure_is_retried_then_completes() {
    let strategy = RetryStrategy::default();
    let mut stats = RetryStats::new();
    let step = chunk_attempt_step(&strategy, &mut stats, Err(DownloadError::server_error("服务器错误: 503")), 500);
    match step {
        AttemptStep::RetryAfter(d) => assert!(d >= strategy.base_delay && d <= strategy.max_delay),
        _ => panic!("503 should be retried"),
    }
    assert!(stats.retry_history.len() >= 1);
    assert_eq!(stats.total_retry_time, 1000);
    assert!(matches!(chunk_attempt_step(&strategy, &mut stats, Ok(()), 0), AttemptStep::Done));
    assert!(matches!(
        chunk_attempt_step(&strategy, &mut stats, Err(DownloadError::Paused), 0),
        AttemptStep::GiveUp(DownloadError::Paused)
    ));
    stats.total_retries = 3;
    assert!(matches!(
        chunk_attempt_step(&strategy, &mut stats, Err(DownloadError::Timeout), 0),
        AttemptStep::GiveUp(DownloadError::Timeout)
    ));
    assert_eq!(stats.retry_history.len(), 1);

    let mut e = engine(1000);
    e.start();
    assert_eq!(e.on_probe(probe(3000, true, None)), DownloadMode::Chunked);
    let d = e.dispatch();
    assert_eq!(d.len(), 3);
    let r = e.on_chunk_result(2, Err(DownloadError::server_error("503")));
    match r.next {
        NextStep::RetryFailedAfter(ms) => assert_eq!(ms, 1000),
        _ => panic!("expected a retry"),
    }
    assert_eq!(e.retry_failed(), vec![2]);
    assert_eq!(e.chunk_manager.as_ref().unwrap().retry_context.current_retries, 1);
    assert_eq!(e.dispatch().iter().map(|c| c.0).collect::<Vec<_>>(), vec![2]);
    e.on_chunk_result(0, Ok(()));
    e.on_chunk_result(1, Ok(()));
    assert!(matches!(e.on_chunk_result(2, Ok(())).next, NextStep::Merge));
}

#[test]
fn every_chunk_failing_without_budget_fails_the_task() {
    let mut e = engine(100);
    e.start();
    e.on_probe(probe(2000, true, None));
    e.chunk_manager.as_mut().unwrap().retry_context.max_retries = 0;
    e.chunk_manager.as_mut().unwrap().set_max_concurrent_chunks(20);
    let d = e.dispatch();
    assert_eq!(d.len(), 20);
    let mut last = None;
    for (i, _) in d {
        last = Some(e.on_chunk_result(i, Err(DownloadError::Timeout)).next);
    }
    assert!(matches!(last, Some(NextStep::Fail(_))));
    assert!(matches!(e.status, TaskStatus::Failed(_)));
}

#[test]
fn configured_chunk_cap_is_used() {
    let mut c = Config::default();
    c.chunk_size = 100;
    c.max_concurrent_chunks = 5;
    let mut e = DownloadTaskActor::new(c, 1, String::from("http://example.com/f"), String::from("f"));
    e.start();
    e.on_probe(probe(2000, true, None));
    assert_eq!(e.dispatch().len(), 5);
}

#[test]
fn pause_stops_dispatch_and_cancel_ends_the_task() {
    let mut e = engine(MIB as usize);
    e.start();
    e.on_probe(probe(100 * MIB, true, None));
    assert_eq!(e.dispatch().len(), 3);
    e.pause();
    assert!(matches!(e.status, TaskStatus::Paused));
    assert!(e.dispatch().is_empty());
    let r = e.on_chunk_result(0, Err(DownloadError::Paused));
    assert!(matches!(r.next, NextStep::Paused));
    assert_eq!(e.chunk_manager.as_ref().unwrap().states[0], ChunkState::Failed);
    assert!(e.cancel());
    assert!(matches!(e.status, TaskStatus::Cancelled));
    assert!(!e.cancel());
}

#[test]
fn resume_mismatch_starts_over() {
    let mut e = engine(2 * MIB as usize);
    e.start();
    e.on_probe(probe(10 * MIB, true, Some("\"abc\"")));
    let d = e.dispatch();
    let r0 = e.on_chunk_result(d[0].0, Ok(()));
    let r1 = e.on_chunk_result(d[1].0, Ok(()));
    assert!(r0.save_resume.is_some());
    let rec = r1.save_resume.unwrap();
    assert_eq!(rec.downloaded_chunks.len(), 2);

    let mut same = engine(2 * MIB as usize);
    same.start();
    same.on_probe(probe(10 * MIB, true, Some("\"abc\"")));
    assert!(same.restore(&rec).is_ok());
    assert_eq!(same.dispatch().iter().map(|c| c.0).collect::<Vec<_>>(), vec![2, 3, 4]);

    let mut changed = engine(2 * MIB as usize);
    changed.start();
    changed.on_probe(probe(10 * MIB, true, Some("\"def\"")));
    assert!(matches!(changed.restore(&rec), Err(DownloadError::ResumeFailed(_))));
    assert_eq!(changed.dispatch().iter().map(|c| c.0).collect::<Vec<_>>(), vec![0, 1, 2]);
}

#[test]
fn single_connection_retries_with_doubling_delay() {
    let mut e = engine(100);
    e.start();
    let mut ctx = RetryContext::new(2, 1000, 60000);
    assert!(matches!(e.on_single_attempt(&mut ctx, Err(DownloadError::Timeout)), AttemptStep::RetryAfter(2000)));
    assert!(matches!(e.on_single_attempt(&mut ctx, Err(DownloadError::Timeout)), AttemptStep::RetryAfter(4000)));
    assert!(matches!(e.on_single_attempt(&mut ctx, Err(DownloadError::Timeout)), AttemptStep::GiveUp(_)));
    assert!(matches!(e.status, TaskStatus::Failed(_)));
    let mut ok = engine(100);
    ok.start();
    assert!(matches!(ok.on_single_attempt(&mut ctx, Ok(())), AttemptStep::Done));
    assert!(matches!(ok.status, TaskStatus::Completed));
}

#[test]
fn header_values_become_file_info() {
    assert_eq!(parse_u64("10485760"), Some(10485760));
    assert_eq!(parse_u64("+7"), Some(7));
    assert_eq!(parse_u64("18446744073709551615"), Some(u64::MAX));
    assert_eq!(parse_u64("18446744073709551616"), None);
    assert_eq!(parse_u64(""), None);
    assert_eq!(parse_u64("+"), None);
    assert_eq!(parse_u64("12a"), None);
    assert_eq!(parse_u64(" 1"), None);
    let fi = file_info_from_headers(Some("2048"), Some("bytes"), None, Some(String::from("\"abc\"")));
    assert_eq!((fi.size, fi.supports_range), (2048, true));
    assert_eq!(fi.etag.as_deref(), Some("\"abc\""));
    let none = file_info_from_headers(Some("x"), Some("none"), Some(String::from("Mon")), None);
    assert_eq!((none.size, none.supports_range), (0, false));
    assert_eq!(none.last_modified.as_deref(), Some("Mon"));
    assert_eq!(file_info_from_headers(None, None, None, None).size, 0);
}

#[test]
fn probe_is_retried_once_after_a_network_error() {
    assert!(retry_probe(1, &DownloadError::network_error("reset")));
    assert!(!retry_probe(2, &DownloadError::network_error("reset")));
    assert!(!retry_probe(1, &DownloadError::server_error("500")));
}

#[test]
fn ended_tasks_keep_their_status() {
    let mut e = engine(100);
    e.start();
    e.on_probe(probe(3000, true, None));
    let d = e.dispatch();
    assert!(e.cancel());
    let r = e.on_chunk_result(d[0].0, Err(DownloadError::Paused));
    assert!(matches!(r.next, NextStep::Continue));
    assert!(matches!(e.status, TaskStatus::Cancelled));
    assert!(!e.on_merged(Ok(())));
    assert!(matches!(e.status, TaskStatus::Cancelled));
    e.start();
    assert!(matches!(e.status, TaskStatus::Cancelled));
    let mut ctx = RetryContext::new(0, 1000, 60000);
    assert!(matches!(e.on_single_attempt(&mut ctx, Err(DownloadError::Timeout)), AttemptStep::GiveUp(_)));
    assert!(matches!(e.status, TaskStatus::Cancelled));

    let mut done = engine(100);
    done.start();
    assert!(matches!(done.on_single_attempt(&mut ctx, Ok(())), AttemptStep::Done));
    assert!(matches!(done.status, TaskStatus::Completed));
    done.on_chunk_result(0, Err(DownloadError::Paused));
    assert!(matches!(done.status, TaskStatus::Completed));
}
