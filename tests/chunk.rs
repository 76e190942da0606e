use multidown::chunk::{ChunkState, ChunkedDownloadManager, FileInfo, ResumeInfo};
use multidown::error::DownloadError;

fn info(etag: Option<&str>, lm: Option<&str>) -> FileInfo {
    FileInfo {
        size: 0,
        supports_range: true,
        last_modified: lm.map(String::from),
        etag: etag.map(String::from),
    }
}

#[test]
fn ten_mib_in_two_mib_chunks_gives_five() {
    let m = ChunkedDownloadManager::new(10485760, 2097152, String::from("big.bin"));
    assert_eq!(m.chunks.len(), 5);
    for (i, c) in m.chunks.iter().enumerate() {
        assert_eq!(c.start, i as u64 * 2097152);
        assert_eq!(c.end - c.start + 1, 2097152);
    }
    assert_eq!(m.chunks[4].end, 10485759);
}

#[test]
fn size_equal_to_chunk_size_gives_one_chunk() {
    let m = ChunkedDownloadManager::new(4096, 4096, String::from("a"));
    assert_eq!(m.chunks.len(), 1);
    assert_eq!((m.chunks[0].start, m.chunks[0].end), (0, 4095));
}

#[test]
fn last_chunk_is_shorter() {
    let m = ChunkedDownloadManager::new(1000, 300, String::from("a"));
    assert_eq!(m.chunks.len(), 4);
    assert_eq!((m.chunks[3].start, m.chunks[3].end), (900, 999));
    let empty = ChunkedDownloadManager::new(0, 300, String::from("a"));
    assert_eq!(empty.chunks.len(), 0);
    assert!(empty.is_completed());
}

#[test]
fn temp_dir_escapes_separators() {
    let m = ChunkedDownloadManager::new(10, 5, String::from("dir/sub\\file.zip"));
    assert_eq!(m.temp_dir, "downloads/temp/dir_sub_file.zip");
    assert_eq!(m.get_chunk_file_path(7), "downloads/temp/dir_sub_file.zip/chunk_0007");
    assert_eq!(m.get_chunk_file_path(12345), "downloads/temp/dir_sub_file.zip/chunk_12345");
    let plan = m.merge_plan();
    assert_eq!(plan, vec![
        String::from("downloads/temp/dir_sub_file.zip/chunk_0000"),
        String::from("downloads/temp/dir_sub_file.zip/chunk_0001"),
    ]);
}

#[test]
fn next_chunk_is_lowest_index_under_cap() {
    let mut m = ChunkedDownloadManager::new(100, 10, String::from("a"));
    let picked: Vec<usize> = (0..4).filter_map(|_| m.get_next_available_chunk().map(|(i, _)| i)).collect();
    assert_eq!(picked, vec![0, 1, 2]);
    assert_eq!(m.count_active(), 3);
    m.mark_chunk_completed(1);
    assert_eq!(m.get_next_available_chunk().map(|(i, c)| (i, c.start)), Some((3, 30)));
}

#[test]
fn cap_of_one_completes_in_index_order() {
    let mut m = ChunkedDownloadManager::new(30, 10, String::from("a"));
    m.set_max_concurrent_chunks(1);
    let mut order = vec![];
    while let Some((i, _)) = m.get_next_available_chunk() {
        assert!(m.get_next_available_chunk().is_none());
        m.mark_chunk_completed(i);
        order.push(i);
    }
    assert_eq!(order, vec![0, 1, 2]);
    assert!(m.is_completed());
}

#[test]
fn failure_and_retry_move_between_sets() {
    let mut m = ChunkedDownloadManager::new(30, 10, String::from("a"));
    let (i, _) = m.get_next_available_chunk().unwrap();
    assert!(m.is_chunk_active(i));
    m.mark_chunk_failed(i);
    assert!(m.is_chunk_failed(i));
    assert!(!m.is_chunk_active(i));
    assert!(m.should_retry_failed_chunks());
    assert_eq!(m.get_failed_chunks_for_retry(), vec![0]);
    assert_eq!(m.retry_failed_chunks(), vec![0]);
    assert_eq!(m.states[0], ChunkState::Pending);
    assert_eq!(m.retry_context.current_retries, 1);
    m.mark_chunk_completed(0);
    m.mark_chunk_failed(0);
    assert_eq!(m.states[0], ChunkState::Completed);
    assert!(!m.should_retry_failed_chunks());
}

#[test]
fn retry_budget_runs_out() {
    let mut m = ChunkedDownloadManager::new(20, 10, String::from("a"));
    m.retry_context.max_retries = 1;
    m.mark_chunk_failed(0);
    assert_eq!(m.retry_failed_chunks(), vec![0]);
    m.mark_chunk_failed(0);
    assert!(!m.should_retry_failed_chunks());
    assert!(m.get_failed_chunks_for_retry().is_empty());
    assert!(m.retry_failed_chunks().is_empty());
    assert_eq!(m.states[0], ChunkState::Failed);
}

#[test]
fn stats_add_up() {
    let mut m = ChunkedDownloadManager::new(50, 10, String::from("a"));
    m.get_next_available_chunk();
    m.get_next_available_chunk();
    m.mark_chunk_completed(0);
    m.mark_chunk_failed(1);
    let s = m.get_stats();
    assert_eq!((s.total_chunks, s.completed_chunks, s.active_chunks, s.failed_chunks, s.pending_chunks), (5, 1, 0, 1, 3));
    m.update_chunk_progress(2, 4);
    assert_eq!(m.chunks[2].downloaded, 4);
    m.update_chunk_progress(0, 4);
    assert_eq!(m.chunks[0].downloaded, 10);
}

#[test]
fn chunk_sizes_are_checked_before_merge() {
    let m = ChunkedDownloadManager::new(25, 10, String::from("a"));
    assert!(m.verify_chunk_sizes(&vec![10, 10, 5]).is_ok());
    assert!(matches!(m.verify_chunk_sizes(&vec![10, 9, 5]), Err(DownloadError::SizeMismatch { expected: 10, actual: 9 })));
    assert!(matches!(m.verify_chunk_sizes(&vec![10, 10]), Err(DownloadError::Unknown(_))));
}

#[test]
fn resume_after_two_chunks_restores_exactly_those() {
    let mut first = ChunkedDownloadManager::new(10485760, 2097152, String::from("big.bin"));
    first.mark_chunk_completed(0);
    first.mark_chunk_completed(1);
    let fi = info(Some("\"abc\""), None);
    let rec = first.resume_info(42, "http://example.com/big.bin", &fi);
    assert_eq!(rec.downloaded_chunks, vec![(0, 2097151), (2097152, 4194303)]);
    assert_eq!(rec.task_id, 42);
    assert_eq!(rec.etag.as_deref(), Some("\"abc\""));

    let mut second = ChunkedDownloadManager::new(10485760, 2097152, String::from("big.bin"));
    assert!(second.load_and_validate_resume_info(&rec, &fi).is_ok());
    assert_eq!(second.get_stats().completed_chunks, 2);
    let mut fetched = vec![];
    while let Some((i, _)) = second.get_next_available_chunk() {
        fetched.push(i);
    }
    assert_eq!(fetched, vec![2, 3, 4]);
}

#[test]
fn changed_etag_refuses_resume() {
    let mut first = ChunkedDownloadManager::new(100, 50, String::from("f"));
    first.mark_chunk_completed(0);
    let rec = first.resume_info(1, "http://e.com/f", &info(Some("\"abc\""), None));
    let mut second = ChunkedDownloadManager::new(100, 50, String::from("f"));
    let r = second.load_and_validate_resume_info(&rec, &info(Some("\"def\""), None));
    assert!(matches!(r, Err(DownloadError::ResumeFailed(_))));
    assert_eq!(second.get_stats().completed_chunks, 0);
}

#[test]
fn last_modified_decides_without_etags() {
    let rec = ResumeInfo {
        task_id: 1,
        url: String::from("u"),
        file: String::from("f"),
        downloaded_chunks: vec![(0, 49)],
        total_size: 100,
        last_modified: Some(String::from("Mon")),
        etag: None,
    };
    let mut m = ChunkedDownloadManager::new(100, 50, String::from("f"));
    assert!(m.load_and_validate_resume_info(&rec, &info(None, Some("Tue"))).is_err());
    assert!(m.load_and_validate_resume_info(&rec, &info(Some("\"x\""), Some("Mon"))).is_err());
    assert!(m.load_and_validate_resume_info(&rec, &info(None, Some("Mon"))).is_ok());
    assert!(m.chunks[0].completed);
    assert!(!m.chunks[1].completed);
}

#[test]
fn byte_counter_sums_completed_ranges() {
    let mut m = ChunkedDownloadManager::new(25, 10, String::from("a"));
    assert_eq!(m.downloaded_bytes(), 0);
    m.mark_chunk_completed(2);
    assert_eq!(m.downloaded_bytes(), 5);
    m.mark_chunk_completed(0);
    assert_eq!(m.downloaded_bytes(), 15);
    m.update_chunk_progress(1, 3);
    assert_eq!(m.downloaded_bytes(), 15);
    m.mark_chunk_completed(1);
    assert_eq!(m.downloaded_bytes(), 25);
}

#[test]
fn reset_retry_state_requeues_failed_chunks() {
    let mut m = ChunkedDownloadManager::new(30, 10, String::from("a"));
    m.mark_chunk_failed(1);
    m.mark_chunk_completed(2);
    m.retry_failed_chunks();
    m.mark_chunk_failed(1);
    assert_eq!(m.retry_context.current_retries, 1);
    m.reset_retry_state();
    assert_eq!(m.retry_context.current_retries, 0);
    assert_eq!(m.states, vec![ChunkState::Pending, ChunkState::Pending, ChunkState::Completed]);
}
