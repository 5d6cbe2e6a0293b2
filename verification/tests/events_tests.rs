use ytdlp_core::errors::diagnose_from_stderr;
use ytdlp_core::events::{error_event, finished_event, initial_event, EventLog, TaskIdAllocator};
use ytdlp_core::progress::ProgressTracker;
use ytdlp_core::types::{DownloadProgress, DownloadStatus};

fn is_terminal(e: &DownloadProgress) -> bool {
    matches!(e.status, DownloadStatus::Finished | DownloadStatus::Error)
}

#[test]
fn initial_event_fields() {
    let e = initial_event();
    assert_eq!(e.status, DownloadStatus::Downloading);
    assert_eq!(e.percent, 0);
    assert_eq!(e.downloaded, 0);
    assert_eq!(e.total, 0);
    assert_eq!(e.filename, "Initializing download...");
    assert_eq!(e.file_path, None);
}

#[test]
fn finished_event_fields() {
    let e = finished_event(Some("/tmp/v.mp4".to_string()), Some(12345));
    assert_eq!(e.status, DownloadStatus::Finished);
    assert_eq!(e.percent, 10000);
    assert_eq!(e.downloaded, 12345);
    assert_eq!(e.total, 12345);
    assert_eq!(e.filename, "Download completed!");
    assert_eq!(e.file_path, Some("/tmp/v.mp4".to_string()));
}

#[test]
fn finished_event_placeholder_size() {
    let e = finished_event(None, None);
    assert_eq!(e.downloaded, 100_000_000);
    assert_eq!(e.total, 100_000_000);
    assert_eq!(e.file_path, None);
}

#[test]
fn error_event_label_without_details() {
    let e = error_event(Some(1), &vec![]);
    assert_eq!(e.status, DownloadStatus::Error);
    assert_eq!(e.percent, 0);
    assert_eq!(e.filename, "Download failed with exit code: Some(1)");
}

#[test]
fn error_event_label_with_details() {
    let lines = vec![
        "WARNING: something benign".to_string(),
        "ERROR: fragment 3 not found".to_string(),
        "download failed".to_string(),
    ];
    let e = error_event(Some(-9), &lines);
    assert_eq!(
        e.filename,
        "Download failed with exit code: Some(-9)\nError details: yt-dlp errors:\n  - ERROR: fragment 3 not found\n  - download failed"
    );
}

#[test]
fn error_event_label_none_code() {
    let e = error_event(None, &vec![]);
    assert_eq!(e.filename, "Download failed with exit code: None");
}

#[test]
fn error_summary_is_bounded_to_ten() {
    let mut lines: Vec<String> = Vec::new();
    for i in 0..12 {
        lines.push(format!("error number {}", i));
    }
    let e = error_event(Some(1), &lines);
    let label = e.filename;
    assert!(label.contains("yt-dlp reported 12 errors, showing the first 10:"));
    assert!(label.contains("  - error number 0"));
    assert!(label.contains("  - error number 9"));
    assert!(!label.contains("error number 10"));
}

#[test]
fn keyword_classification_is_case_sensitive() {
    let lines = vec![
        "SSL handshake broke".to_string(),
        "ssl lowercase is not a keyword".to_string(),
        "Timeout capitalized is not a keyword".to_string(),
        "socket timeout reached".to_string(),
        "certificate rejected".to_string(),
    ];
    let e = error_event(Some(1), &lines);
    let label = e.filename;
    assert!(label.contains("  - SSL handshake broke"));
    assert!(!label.contains("lowercase"));
    assert!(!label.contains("capitalized"));
    assert!(label.contains("  - socket timeout reached"));
    assert!(label.contains("  - certificate rejected"));
}

#[test]
fn one_terminal_event_and_it_is_last() {
    // a full download's event sequence: initial event, parsed progress,
    // one terminal close
    let mut log = EventLog::new();
    log.record(initial_event());
    let mut t = ProgressTracker::new();
    for line in [
        "[download] Destination: /tmp/v.f401.mp4",
        "[download]   2.3% of   10.15GiB at   49.23MiB/s ETA 03:26",
        "[download] 100% of  364.32MiB in 00:00:12 at 28.36MiB/s",
        "[Merger] Merging formats into \"/tmp/v.mp4\"",
        "Deleting original file /tmp/v.f401.mp4 (pass -k to keep)",
    ] {
        if let Some(ev) = t.handle_line(line) {
            log.record(ev);
        }
    }
    log.close(finished_event(Some("/tmp/v.mp4".to_string()), Some(382017208)));
    let events = &log.events;
    assert_eq!(events.len(), 6);
    let terminal_count = events.iter().filter(|e| is_terminal(e)).count();
    assert_eq!(terminal_count, 1);
    assert!(is_terminal(events.last().unwrap()));
}

#[test]
fn failed_download_emits_one_terminal_error() {
    let mut log = EventLog::new();
    log.record(initial_event());
    log.close(error_event(Some(1), &vec!["ERROR: boom".to_string()]));
    let events = &log.events;
    let terminal_count = events.iter().filter(|e| is_terminal(e)).count();
    assert_eq!(terminal_count, 1);
    assert!(is_terminal(events.last().unwrap()));
    assert_eq!(events.last().unwrap().status, DownloadStatus::Error);
}

#[test]
fn task_ids_are_distinct() {
    let mut ids = TaskIdAllocator::new();
    let a = ids.fresh();
    let b = ids.fresh();
    let c = ids.fresh();
    assert_eq!((a, b, c), (0, 1, 2));
}

#[test]
fn diagnosis_texts() {
    let ok = diagnose_from_stderr("[debug] everything fine");
    assert_eq!(
        ok,
        "Network connection looks normal; likely a temporary problem, please retry"
    );
    let ssl = diagnose_from_stderr("SSL: CERTIFICATE_VERIFY_FAILED");
    assert!(ssl.starts_with("SSL connection problem detected"));
    let both = diagnose_from_stderr("SSL error then socket timeout");
    assert!(both.contains("SSL connection problem detected"));
    assert!(both.contains("Network timeout detected"));
    let to = diagnose_from_stderr("Read Timeout occurred");
    assert_eq!(
        to,
        "Network timeout detected\nSuggestions:\n- Check network speed\n- Retry later\n"
    );
}
