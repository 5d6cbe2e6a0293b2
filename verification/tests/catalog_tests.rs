use ytdlp_core::types::{VideoInfo, YtDlpFormat, YtDlpOutput};

fn raw(id: &str, ext: &str, vcodec: Option<&str>, acodec: Option<&str>) -> YtDlpFormat {
    YtDlpFormat {
        format_id: id.to_string(),
        ext: ext.to_string(),
        resolution: None,
        height: None,
        filesize: None,
        fps: None,
        vcodec: vcodec.map(|s| s.to_string()),
        acodec: acodec.map(|s| s.to_string()),
        tbr: None,
        format_note: None,
        hdr: None,
    }
}

fn output(formats: Vec<YtDlpFormat>) -> YtDlpOutput {
    YtDlpOutput {
        id: "abc123".to_string(),
        title: "A Title".to_string(),
        duration: Some(212),
        thumbnail: None,
        uploader: Some("someone".to_string()),
        upload_date: None,
        description: None,
        view_count: Some(42),
        formats: Some(formats),
    }
}

#[test]
fn junk_formats_are_excluded() {
    let info = VideoInfo::from(output(vec![
        raw("sb0", "mhtml", Some("none"), Some("none")),
        raw("sb1", "webm", Some("vp9"), Some("opus")),
        raw("613", "mhtml", Some("vp9"), Some("opus")),
        raw("18", "mp4", Some("avc1"), Some("mp4a")),
        raw("0", "webm", Some("none"), Some("none")),
    ]));
    assert_eq!(info.formats.len(), 1);
    assert_eq!(info.formats[0].format_id, "18");
    for f in &info.formats {
        assert_ne!(f.ext, "mhtml");
        assert!(!f.format_id.starts_with("sb"));
        assert!(!(f.vcodec == "none" && f.acodec == "none"));
    }
}

#[test]
fn scalar_defaults_are_applied() {
    let info = VideoInfo::from(YtDlpOutput {
        id: "x".to_string(),
        title: "t".to_string(),
        duration: None,
        thumbnail: None,
        uploader: None,
        upload_date: None,
        description: None,
        view_count: None,
        formats: None,
    });
    assert_eq!(info.id, "x");
    assert_eq!(info.title, "t");
    assert_eq!(info.duration, 0);
    assert_eq!(info.thumbnail, "");
    assert_eq!(info.uploader, "");
    assert_eq!(info.view_count, 0);
    assert!(info.formats.is_empty());
}

#[test]
fn hdr_flag_from_codec_tag_and_note() {
    let mut a = raw("1", "mp4", Some("avc1"), Some("mp4a"));
    a.hdr = Some("10".to_string());
    let mut b = raw("2", "mp4", Some("avc1"), Some("mp4a"));
    b.format_note = Some("1080p HDR".to_string());
    let c = raw("3", "mp4", Some("avc1"), Some("mp4a"));
    let info = VideoInfo::from(output(vec![a, b, c]));
    assert!(info.formats[0].hdr);
    assert!(info.formats[1].hdr);
    assert!(!info.formats[2].hdr);
}

#[test]
fn dash_flag_from_note_and_codec_asymmetry() {
    let mut a = raw("1", "mp4", Some("avc1"), Some("mp4a"));
    a.format_note = Some("dash container".to_string());
    let b = raw("2", "mp4", Some("avc1"), Some("none"));
    let c = raw("3", "m4a", Some("none"), Some("mp4a"));
    let d = raw("4", "mp4", Some("avc1"), Some("mp4a"));
    let info = VideoInfo::from(output(vec![a, b, c, d]));
    assert!(info.formats[0].is_dash);
    assert!(info.formats[1].is_dash);
    assert!(info.formats[2].is_dash);
    assert!(!info.formats[3].is_dash);
}

#[test]
fn resolution_and_quality_labels() {
    let mut a = raw("1", "mp4", Some("avc1"), Some("mp4a"));
    a.height = Some(1080);
    let mut b = raw("2", "mp4", Some("avc1"), Some("mp4a"));
    b.resolution = Some("640x360".to_string());
    b.height = Some(360);
    let c = raw("3", "m4a", Some("none"), Some("mp4a"));
    let d = raw("4", "mp4", Some("avc1"), Some("mp4a"));
    let info = VideoInfo::from(output(vec![a, b, c, d]));
    assert_eq!(info.formats[0].resolution, "1920x1080");
    assert_eq!(info.formats[0].quality_label, "1080p");
    assert_eq!(info.formats[1].resolution, "640x360");
    assert_eq!(info.formats[1].quality_label, "360p");
    assert_eq!(info.formats[2].resolution, "audio only");
    assert_eq!(info.formats[2].quality_label, "audio");
    assert_eq!(info.formats[3].resolution, "unknown");
    assert_eq!(info.formats[3].quality_label, "unknown");
}

#[test]
fn codec_defaults() {
    let a = raw("1", "mp4", None, Some("mp4a"));
    let info = VideoInfo::from(output(vec![a]));
    assert_eq!(info.formats[0].vcodec, "unknown");
    assert_eq!(info.formats[0].acodec, "mp4a");
    assert_eq!(info.formats[0].format_note, "");
    // an absent vcodec does not count as the "none" sentinel
    assert!(!info.formats[0].is_dash);
}
