use ytdlp_core::progress::ProgressTracker;
use ytdlp_core::types::DownloadStatus;

#[test]
fn regular_progress_line() {
    let mut t = ProgressTracker::new();
    let ev = t
        .handle_line("[download]   2.3% of   10.15GiB at   49.23MiB/s ETA 03:26")
        .expect("progress line must yield an event");
    assert_eq!(ev.status, DownloadStatus::Downloading);
    assert_eq!(ev.percent, 230);
    assert_eq!(ev.total, 10898479513);
    assert_eq!(ev.speed, 51621396);
    assert_eq!(ev.eta, 206);
    assert_eq!(ev.downloaded, 250665028);
    assert_eq!(ev.filename, "Downloading...");
    assert_eq!(ev.file_path, None);
    assert_eq!(t.last_total_bytes, 10898479513);
}

#[test]
fn completion_line() {
    let mut t = ProgressTracker::new();
    let ev = t
        .handle_line("[download] 100% of  364.32MiB in 00:00:12 at 28.36MiB/s")
        .expect("completion line must yield an event");
    assert_eq!(ev.status, DownloadStatus::Downloading);
    assert_eq!(ev.percent, 10000);
    assert_eq!(ev.total, 382017208);
    assert_eq!(ev.downloaded, 382017208);
    assert_eq!(ev.speed, 0);
    assert_eq!(ev.eta, 0);
    assert_eq!(t.last_total_bytes, 382017208);
}

#[test]
fn merger_phase_line() {
    let mut t = ProgressTracker::new();
    t.handle_line("[download]   50.0% of 100.00MiB at 1.00MiB/s ETA 00:50");
    let ev = t
        .handle_line("[Merger] Merging formats into \"out.mp4\"")
        .expect("merger line must yield an event");
    assert_eq!(ev.status, DownloadStatus::Processing);
    assert_eq!(ev.percent, 10000);
    assert_eq!(ev.filename, "Merging video and audio...");
    assert_eq!(ev.downloaded, 104857600);
    assert_eq!(ev.total, 104857600);
}

#[test]
fn metadata_phase_line() {
    let mut t = ProgressTracker::new();
    let ev = t
        .handle_line("[Metadata] Adding metadata to \"out.mp4\"")
        .expect("metadata line must yield an event");
    assert_eq!(ev.status, DownloadStatus::Processing);
    assert_eq!(ev.filename, "Adding metadata...");
}

#[test]
fn cleanup_phase_line() {
    let mut t = ProgressTracker::new();
    let ev = t
        .handle_line("Deleting original file out.f401.mp4 (pass -k to keep)")
        .expect("cleanup line must yield an event");
    assert_eq!(ev.status, DownloadStatus::Processing);
    assert_eq!(ev.filename, "Cleaning up temporary files...");
}

#[test]
fn destination_line_updates_filename() {
    let mut t = ProgressTracker::new();
    let none = t.handle_line("[download] Destination: /home/user/videos/My Video.mp4");
    assert!(none.is_none());
    assert_eq!(t.current_filename, "My Video.mp4");
    let ev = t
        .handle_line("[download]   2.3% of   10.15GiB at   49.23MiB/s ETA 03:26")
        .unwrap();
    assert_eq!(ev.filename, "My Video.mp4");
}

#[test]
fn destination_line_without_slash_keeps_filename() {
    let mut t = ProgressTracker::new();
    let none = t.handle_line("[download] Destination: out.mp4 (no path)");
    assert!(none.is_none());
    assert_eq!(t.current_filename, "Downloading...");
}

#[test]
fn unrelated_lines_are_ignored() {
    let mut t = ProgressTracker::new();
    assert!(t.handle_line("[youtube] Extracting URL").is_none());
    assert!(t.handle_line("").is_none());
    assert!(t.handle_line("[download] something unrelated").is_none());
    assert_eq!(t.last_total_bytes, 0);
}

#[test]
fn progress_with_unicode_destination() {
    let mut t = ProgressTracker::new();
    t.handle_line("[download] Destination: /tmp/видео – тест.mp4");
    assert_eq!(t.current_filename, "видео – тест.mp4");
}
