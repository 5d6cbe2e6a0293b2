use ytdlp_core::select::{get_best_format_for_quality, get_fallback_formats};
use ytdlp_core::types::VideoFormat;

fn fmt(id: &str, ext: &str, quality: &str, vcodec: &str, acodec: &str, tbr: Option<u32>) -> VideoFormat {
    VideoFormat {
        format_id: id.to_string(),
        ext: ext.to_string(),
        resolution: "1920x1080".to_string(),
        quality_label: quality.to_string(),
        filesize: None,
        fps: None,
        vcodec: vcodec.to_string(),
        acodec: acodec.to_string(),
        tbr,
        format_note: String::new(),
        hdr: false,
        is_dash: false,
    }
}

#[test]
fn complete_format_wins() {
    let formats = vec![
        fmt("137", "mp4", "1080p", "avc1", "none", None),
        fmt("22", "mp4", "1080p", "avc1", "mp4a", None),
    ];
    let r = get_best_format_for_quality(&formats, "1080p", "mp4");
    assert_eq!(r, Some("22".to_string()));
}

#[test]
fn dash_combination_when_no_complete_format() {
    let formats = vec![
        fmt("137", "mp4", "1080p", "avc1", "none", None),
        fmt("140", "m4a", "audio", "none", "mp4a", Some(128)),
    ];
    let r = get_best_format_for_quality(&formats, "1080p", "mp4");
    assert_eq!(r, Some("137+140".to_string()));
}

#[test]
fn audio_fallback_picks_highest_bitrate() {
    // no audio-only descriptor: the best audio among mixed descriptors wins
    let formats = vec![
        fmt("401", "mp4", "2160p", "av01", "none", None),
        fmt("18", "mp4", "360p", "avc1", "mp4a", Some(96)),
        fmt("22", "mp4", "720p", "avc1", "mp4a", Some(192)),
        fmt("59", "mp4", "480p", "avc1", "mp4a", Some(128)),
    ];
    let r = get_best_format_for_quality(&formats, "2160p", "webm");
    assert_eq!(r, Some("401+22".to_string()));
}

#[test]
fn audio_fallback_tie_takes_latest() {
    let formats = vec![
        fmt("401", "mp4", "2160p", "av01", "none", None),
        fmt("18", "mp4", "360p", "avc1", "mp4a", Some(128)),
        fmt("59", "mp4", "480p", "avc1", "mp4a", Some(128)),
    ];
    let r = get_best_format_for_quality(&formats, "2160p", "webm");
    assert_eq!(r, Some("401+59".to_string()));
}

#[test]
fn no_combination_returns_none() {
    let formats = vec![
        fmt("137", "mp4", "1080p", "avc1", "none", None),
    ];
    assert_eq!(get_best_format_for_quality(&formats, "1080p", "mp4"), None);
    assert_eq!(get_best_format_for_quality(&formats, "720p", "mp4"), None);
    let empty: Vec<VideoFormat> = vec![];
    assert_eq!(get_best_format_for_quality(&empty, "1080p", "mp4"), None);
}

#[test]
fn first_matching_complete_format_is_taken() {
    let formats = vec![
        fmt("22a", "mp4", "1080p", "avc1", "mp4a", Some(1)),
        fmt("22b", "mp4", "1080p", "avc1", "mp4a", Some(2)),
    ];
    let r = get_best_format_for_quality(&formats, "1080p", "mp4");
    assert_eq!(r, Some("22a".to_string()));
}

#[test]
fn fallbacks_for_ultra_high_resolution() {
    let r = get_fallback_formats("701+258");
    assert_eq!(
        r,
        vec![
            "308+258".to_string(),
            "299+258".to_string(),
            "136+258".to_string(),
            "best[height<=1080]".to_string(),
            "best".to_string(),
            "worst".to_string(),
        ]
    );
    // "315" and "337" mark the same rung of the ladder
    assert_eq!(get_fallback_formats("315")[0], "308+258".to_string());
    assert_eq!(get_fallback_formats("337+251").len(), 6);
}

#[test]
fn fallbacks_for_1440p() {
    let r = get_fallback_formats("308+258");
    assert_eq!(
        r,
        vec![
            "299+258".to_string(),
            "136+258".to_string(),
            "best[height<=720]".to_string(),
            "best".to_string(),
            "worst".to_string(),
        ]
    );
}

#[test]
fn fallbacks_generic() {
    let r = get_fallback_formats("22");
    assert_eq!(r, vec!["best".to_string(), "worst".to_string()]);
}
