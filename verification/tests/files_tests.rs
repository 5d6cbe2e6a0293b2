use ytdlp_core::files::{pick_downloaded_file, FileEntry};

fn entry(path: &str, name: &str, ext: &str, modified: u64, is_file: bool) -> FileEntry {
    FileEntry {
        path: path.to_string(),
        name: name.to_string(),
        extension: ext.to_string(),
        modified,
        is_file,
    }
}

#[test]
fn newest_media_file_wins() {
    let entries = vec![
        entry("/d/a.mp4", "a.mp4", "mp4", 100, true),
        entry("/d/b.mkv", "b.mkv", "mkv", 300, true),
        entry("/d/c.webm", "c.webm", "webm", 200, true),
    ];
    assert_eq!(pick_downloaded_file(&entries), Some("/d/b.mkv".to_string()));
}

#[test]
fn thumbnails_and_non_media_are_skipped() {
    let entries = vec![
        entry("/d/v.thumbnail.mp4", "v.thumbnail.mp4", "mp4", 900, true),
        entry("/d/v.thumb.mp4", "v.thumb.mp4", "mp4", 800, true),
        entry("/d/cover.jpg.mp4", "cover.jpg.mp4", "mp4", 700, true),
        entry("/d/notes.txt", "notes.txt", "txt", 600, true),
        entry("/d/sub", "sub", "", 1000, false),
        entry("/d/v.mp4", "v.mp4", "mp4", 100, true),
    ];
    assert_eq!(pick_downloaded_file(&entries), Some("/d/v.mp4".to_string()));
}

#[test]
fn extension_match_ignores_ascii_case() {
    let entries = vec![entry("/d/v.MP4", "v.MP4", "MP4", 5, true)];
    assert_eq!(pick_downloaded_file(&entries), Some("/d/v.MP4".to_string()));
}

#[test]
fn tie_takes_the_earliest_entry() {
    let entries = vec![
        entry("/d/a.mp4", "a.mp4", "mp4", 100, true),
        entry("/d/b.mp4", "b.mp4", "mp4", 100, true),
    ];
    assert_eq!(pick_downloaded_file(&entries), Some("/d/a.mp4".to_string()));
}

#[test]
fn empty_and_all_excluded_yield_none() {
    assert_eq!(pick_downloaded_file(&vec![]), None);
    let entries = vec![entry("/d/notes.txt", "notes.txt", "txt", 600, true)];
    assert_eq!(pick_downloaded_file(&entries), None);
}

#[test]
fn audio_containers_count_as_media() {
    let entries = vec![
        entry("/d/a.m4a", "a.m4a", "m4a", 10, true),
        entry("/d/b.mp3", "b.mp3", "mp3", 20, true),
    ];
    assert_eq!(pick_downloaded_file(&entries), Some("/d/b.mp3".to_string()));
}
