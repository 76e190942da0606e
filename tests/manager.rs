use multidown::chunk::ResumeInfo;
use multidown::config::Config;
use multidown::manager::{get_filename_from_url, DownloadManagerActor, DownloadTaskMeta, StartOutcome, TaskStatus};

fn table(permits: usize) -> DownloadManagerActor {
    let mut c = Config::default();
    c.max_concurrent_downloads = permits;
    DownloadManagerActor::new(&c)
}

fn is(s: &Option<TaskStatus>, want: &str) -> bool {
    matches!(
        (s, want),
        (Some(TaskStatus::Pending), "pending")
            | (Some(TaskStatus::Running), "running")
            | (Some(TaskStatus::Paused), "paused")
            | (Some(TaskStatus::Completed), "completed")
            | (Some(TaskStatus::Failed(_)), "failed")
            | (Some(TaskStatus::Cancelled), "cancelled")
    )
}

#[test]
fn permits_bound_running_tasks() {
    let mut m = table(1);
    let a = m.create_task("http://e.com/a", "a").unwrap();
    let b = m.create_task("http://e.com/b", "b").unwrap();
    assert_ne!(a, b);
    assert!(is(&m.query_status(a), "pending"));
    assert_eq!(m.try_start(a), StartOutcome::Started);
    assert_eq!(m.try_start(b), StartOutcome::NoPermit);
    assert_eq!(m.get_stats().running, 1);
    assert!(m.mark_task_completed(a));
    assert_eq!(m.available_permits, 1);
    assert_eq!(m.try_start(b), StartOutcome::Started);
    assert_eq!(m.try_start(a), StartOutcome::NotStartable);
    assert_eq!(m.try_start(7), StartOutcome::NotFound);
}

#[test]
fn pause_keeps_the_permit_and_cancel_releases_it() {
    let mut m = table(1);
    let a = m.create_task_with_id(1, "http://e.com/a", "a").unwrap();
    assert!(m.create_task_with_id(1, "x", "y").is_err());
    assert!(!m.pause_task(a));
    assert!(!m.cancel_task(a));
    assert_eq!(m.try_start(a), StartOutcome::Started);
    assert!(m.pause_task(a));
    assert!(is(&m.query_status(a), "paused"));
    assert_eq!(m.available_permits, 0);
    assert_eq!(m.try_start(a), StartOutcome::Started);
    assert!(m.pause_task(a));
    assert!(m.cancel_task(a));
    assert!(is(&m.query_status(a), "cancelled"));
    assert_eq!(m.available_permits, 1);
    assert!(!m.cancel_task(a));
    assert!(!m.mark_task_completed(a));
}

#[test]
fn failure_is_terminal_and_recorded() {
    let mut m = table(2);
    let a = m.create_task_with_id(5, "u", "f").unwrap();
    assert!(!m.mark_task_failed(a, String::from("boom")));
    m.try_start(a);
    assert!(m.mark_task_failed(a, String::from("boom")));
    match m.query_status(a) {
        Some(TaskStatus::Failed(r)) => assert_eq!(r, "boom"),
        _ => panic!("not failed"),
    }
    assert_eq!(m.get_stats().failed, 1);
    assert_eq!(m.available_permits, 2);
}

#[test]
fn progress_is_reported_in_percent() {
    let mut m = table(1);
    let a = m.create_task_with_id(9, "u", "f").unwrap();
    assert_eq!(m.query_progress(a), Some(0));
    assert!(m.update_task_progress(a, 250, 1000));
    assert_eq!(m.query_progress(a), Some(25));
    let d = m.query_detail(a).unwrap();
    assert_eq!((d.downloaded, d.total), (250, 1000));
    m.try_start(a);
    m.mark_task_completed(a);
    assert_eq!(m.query_progress(a), Some(100));
    assert!(m.query_detail(3).is_none());
}

#[test]
fn resume_records_come_back_paused_once() {
    let mut m = table(1);
    m.create_task_with_id(1, "u1", "f1").unwrap();
    let rec = |id: u128| ResumeInfo {
        task_id: id,
        url: String::from("u"),
        file: String::from("f"),
        downloaded_chunks: vec![],
        total_size: 99,
        last_modified: None,
        etag: None,
    };
    m.load_tasks_from_resume_files(&vec![rec(1), rec(2), rec(2)]);
    assert_eq!(m.metas.len(), 2);
    assert!(is(&m.query_status(1), "pending"));
    assert!(is(&m.query_status(2), "paused"));
    assert_eq!(m.query_detail(2).unwrap().total, 99);
    assert_eq!(m.try_start(2), StartOutcome::Started);
}

#[test]
fn saved_running_tasks_load_paused() {
    let mut m = table(2);
    let saved = vec![
        DownloadTaskMeta { id: 1, url: String::from("u"), file: String::from("f"), status: TaskStatus::Running, downloaded: 5, total: 10, holds_permit: true },
        DownloadTaskMeta { id: 2, url: String::from("u"), file: String::from("g"), status: TaskStatus::Completed, downloaded: 10, total: 10, holds_permit: false },
    ];
    m.load_tasks_from_file(&saved);
    assert!(is(&m.query_status(1), "paused"));
    assert!(is(&m.query_status(2), "completed"));
    assert_eq!(m.available_permits, 2);
    let s = m.get_stats();
    assert_eq!((s.total, s.paused, s.completed), (2, 1, 1));
}

#[test]
fn test_filename_extraction() {
    assert_eq!(get_filename_from_url("https://example.com/file.txt"), "file.txt");
    assert_eq!(get_filename_from_url("https://example.com/path/to/file.zip"), "file.zip");
    assert_eq!(get_filename_from_url("https://example.com/"), "downloaded_file");
}
