use ytdlp_core::args::{
    build_diagnose_args, build_download_args, build_info_args, effective_format_id,
};

#[test]
fn combined_format_requests_merge() {
    let args = build_download_args(
        "https://example.com/v",
        "401+258",
        "/tmp/out",
        "/opt/tools/bin",
    );
    let pos = args
        .iter()
        .position(|a| a == "--merge-output-format")
        .expect("merge flag must be present for a combined identifier");
    assert_eq!(args[pos + 1], "mp4");
}

#[test]
fn plain_format_requests_no_merge() {
    let args = build_download_args("https://example.com/v", "22", "/tmp/out", "/opt/tools/bin");
    assert!(args.iter().all(|a| a != "--merge-output-format"));
}

#[test]
fn download_args_layout() {
    let args = build_download_args("u", "22", "/d", "/ff");
    assert_eq!(args[0], "-f");
    assert_eq!(args[1], "22");
    assert_eq!(args[2], "-o");
    assert_eq!(args[3], "/d/%(title)s.%(ext)s");
    assert_eq!(args[4], "--no-playlist");
    assert_eq!(args[5], "--retries");
    assert_eq!(args[6], "10");
    assert_eq!(args[args.len() - 1], "u");
    assert!(args.iter().any(|a| a == "--newline"));
    assert!(args.iter().any(|a| a == "--no-colors"));
    assert!(args.iter().any(|a| a == "--progress"));
    assert!(args.iter().any(|a| a == "--embed-metadata"));
    assert!(args.iter().any(|a| a == "--write-thumbnail"));
    assert!(args.iter().any(|a| a == "--socket-timeout"));
    assert!(args.iter().any(|a| a == "linear=1:5:10"));
    assert_eq!(args.len(), 26);
    let merged = build_download_args("u", "401+258", "/d", "/ff");
    assert_eq!(merged.len(), 28);
}

#[test]
fn info_args_layout() {
    let args = build_info_args("https://example.com/v", "/opt/tools/bin");
    assert_eq!(
        args,
        vec![
            "-J".to_string(),
            "--no-playlist".to_string(),
            "--all-formats".to_string(),
            "--format-sort".to_string(),
            "res,fps,hdr:12,vcodec:vp9.2,acodec".to_string(),
            "--ffmpeg-location".to_string(),
            "/opt/tools/bin".to_string(),
            "https://example.com/v".to_string(),
        ]
    );
}

#[test]
fn diagnose_args_layout() {
    let args = build_diagnose_args("u", "/ff");
    assert_eq!(
        args,
        vec![
            "--simulate".to_string(),
            "--no-playlist".to_string(),
            "--verbose".to_string(),
            "--ffmpeg-location".to_string(),
            "/ff".to_string(),
            "u".to_string(),
        ]
    );
}

#[test]
fn effective_format_for_audio_only_requests() {
    assert_eq!(effective_format_id("22", false), "22");
    assert_eq!(effective_format_id("22", true), "bestaudio/best");
    assert_eq!(effective_format_id("bestaudio", true), "bestaudio");
    assert_eq!(effective_format_id("140-audio", true), "140-audio");
}
