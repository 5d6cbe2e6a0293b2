//! The data model: format descriptors and the video catalog produced
//! from a metadata fetch, download requests, and progress events.
//!
//! Fractional quantities that the external tool reports (percentages,
//! frame rates, bitrates) are carried as scaled integers: percentages in
//! hundredths of a percent, frame rates and bitrates rounded down to
//! whole units.

use vstd::prelude::*;

verus! {

use vstd::string::StringExecFns;

/// Where a download stands; `Finished` and `Error` are the two terminal
/// states, every other state may be followed by more events.
#[derive(Clone, Copy, Debug, PartialEq, Eq, Structural)]
pub enum DownloadStatus {
    Queued,
    Downloading,
    Processing,
    Finished,
    Error,
}

/// A status that ends a download's event sequence.
pub open spec fn is_terminal(s: DownloadStatus) -> bool {
    s == DownloadStatus::Finished || s == DownloadStatus::Error
}

impl DownloadStatus {
    /// The conventional lower-case wire name of the status.
    pub fn as_str(&self) -> (r: &'static str)
        ensures
            r@ == self.spec_name(),
    {
        match self {
            DownloadStatus::Queued => "queued",
            DownloadStatus::Downloading => "downloading",
            DownloadStatus::Processing => "processing",
            DownloadStatus::Finished => "finished",
            DownloadStatus::Error => "error",
        }
    }

    pub open spec fn spec_name(&self) -> Seq<char> {
        match self {
            DownloadStatus::Queued => "queued"@,
            DownloadStatus::Downloading => "downloading"@,
            DownloadStatus::Processing => "processing"@,
            DownloadStatus::Finished => "finished"@,
            DownloadStatus::Error => "error"@,
        }
    }
}

/// One progress event pushed to the caller while a download runs.
///
/// `percent` is in hundredths of a percent (so 10000 means 100%),
/// `speed` in bytes per second, `eta` in seconds, `downloaded` and
/// `total` in bytes with 0 standing for "unknown".
#[derive(Clone, Debug)]
pub struct DownloadProgress {
    pub status: DownloadStatus,
    pub percent: u32,
    pub speed: u64,
    pub eta: u32,
    pub downloaded: u64,
    pub total: u64,
    pub filename: String,
    pub file_path: Option<String>,
}

/// Mathematical image of a `DownloadProgress`.
#[verifier::ext_equal]
pub ghost struct ProgressView {
    pub status: DownloadStatus,
    pub percent: u32,
    pub speed: u64,
    pub eta: u32,
    pub downloaded: u64,
    pub total: u64,
    pub filename: Seq<char>,
    pub file_path: Option<Seq<char>>,
}

/// View of an optional owned string.
pub open spec fn opt_str_view(o: Option<String>) -> Option<Seq<char>> {
    match o {
        Some(s) => Some(s@),
        None => None,
    }
}

impl View for DownloadProgress {
    type V = ProgressView;

    open spec fn view(&self) -> ProgressView {
        ProgressView {
            status: self.status,
            percent: self.percent,
            speed: self.speed,
            eta: self.eta,
            downloaded: self.downloaded,
            total: self.total,
            filename: self.filename@,
            file_path: opt_str_view(self.file_path),
        }
    }
}

/// One downloadable stream variant, as the catalog presents it.
///
/// `fps` is rounded down to whole frames per second and `tbr` to whole
/// kilobits per second. The `"none"` sentinel in `vcodec`/`acodec` marks
/// an absent stream.
#[derive(Clone, Debug)]
pub struct VideoFormat {
    pub format_id: String,
    pub ext: String,
    pub resolution: String,
    pub quality_label: String,
    pub filesize: Option<u64>,
    pub fps: Option<u32>,
    pub vcodec: String,
    pub acodec: String,
    pub tbr: Option<u32>,
    pub format_note: String,
    pub hdr: bool,
    pub is_dash: bool,
}

/// Mathematical image of a `VideoFormat`.
#[verifier::ext_equal]
pub ghost struct FormatView {
    pub format_id: Seq<char>,
    pub ext: Seq<char>,
    pub resolution: Seq<char>,
    pub quality_label: Seq<char>,
    pub filesize: Option<u64>,
    pub fps: Option<u32>,
    pub vcodec: Seq<char>,
    pub acodec: Seq<char>,
    pub tbr: Option<u32>,
    pub format_note: Seq<char>,
    pub hdr: bool,
    pub is_dash: bool,
}

impl View for VideoFormat {
    type V = FormatView;

    open spec fn view(&self) -> FormatView {
        FormatView {
            format_id: self.format_id@,
            ext: self.ext@,
            resolution: self.resolution@,
            quality_label: self.quality_label@,
            filesize: self.filesize,
            fps: self.fps,
            vcodec: self.vcodec@,
            acodec: self.acodec@,
            tbr: self.tbr,
            format_note: self.format_note@,
            hdr: self.hdr,
            is_dash: self.is_dash,
        }
    }
}

/// A video and its catalog of downloadable formats, as produced once
/// per metadata fetch.
#[derive(Clone, Debug)]
pub struct VideoInfo {
    pub id: String,
    pub title: String,
    pub duration: u32,
    pub thumbnail: String,
    pub uploader: String,
    pub upload_date: String,
    pub description: String,
    pub view_count: u64,
    pub formats: Vec<VideoFormat>,
}

/// One format entry of the external tool's JSON catalog, with every
/// field the tool may omit kept optional.
#[derive(Clone, Debug)]
pub struct YtDlpFormat {
    pub format_id: String,
    pub ext: String,
    pub resolution: Option<String>,
    pub height: Option<u32>,
    pub filesize: Option<u64>,
    pub fps: Option<u32>,
    pub vcodec: Option<String>,
    pub acodec: Option<String>,
    pub tbr: Option<u32>,
    pub format_note: Option<String>,
    pub hdr: Option<String>,
}

/// Mathematical image of a `YtDlpFormat`.
#[verifier::ext_equal]
pub ghost struct YtDlpFormatView {
    pub format_id: Seq<char>,
    pub ext: Seq<char>,
    pub resolution: Option<Seq<char>>,
    pub height: Option<u32>,
    pub filesize: Option<u64>,
    pub fps: Option<u32>,
    pub vcodec: Option<Seq<char>>,
    pub acodec: Option<Seq<char>>,
    pub tbr: Option<u32>,
    pub format_note: Option<Seq<char>>,
    pub hdr: Option<Seq<char>>,
}

impl View for YtDlpFormat {
    type V = YtDlpFormatView;

    open spec fn view(&self) -> YtDlpFormatView {
        YtDlpFormatView {
            format_id: self.format_id@,
            ext: self.ext@,
            resolution: opt_str_view(self.resolution),
            height: self.height,
            filesize: self.filesize,
            fps: self.fps,
            vcodec: opt_str_view(self.vcodec),
            acodec: opt_str_view(self.acodec),
            tbr: self.tbr,
            format_note: opt_str_view(self.format_note),
            hdr: opt_str_view(self.hdr),
        }
    }
}

/// The external tool's JSON description of a video, before catalog
/// construction.
#[derive(Clone, Debug)]
pub struct YtDlpOutput {
    pub id: String,
    pub title: String,
    pub duration: Option<u32>,
    pub thumbnail: Option<String>,
    pub uploader: Option<String>,
    pub upload_date: Option<String>,
    pub description: Option<String>,
    pub view_count: Option<u64>,
    pub formats: Option<Vec<YtDlpFormat>>,
}

/// A format entry survives catalog construction: it is not a
/// thumbnail-sprite container, not a storyboard identifier, and it has
/// at least one of its two streams.
pub open spec fn keep_format(f: YtDlpFormatView) -> bool {
    &&& f.ext != "mhtml"@
    &&& !crate::text::starts_str(f.format_id, "sb"@)
    &&& !(f.vcodec == Some("none"@) && f.acodec == Some("none"@))
}

/// A format counts as HDR when its codec tag is `"10"` or its note
/// mentions HDR.
pub open spec fn spec_is_hdr(f: YtDlpFormatView) -> bool {
    f.hdr == Some("10"@) || (match f.format_note {
        Some(n) => crate::text::contains_str(n, "HDR"@),
        None => false,
    })
}

/// A format counts as DASH when its note says so or when exactly one of
/// its two streams is the `"none"` sentinel; an absent codec field does
/// not count as `"none"`.
pub open spec fn spec_is_dash(f: YtDlpFormatView) -> bool {
    ||| match f.format_note {
        Some(n) => crate::text::contains_str(n, "dash"@),
        None => false,
    }
    ||| (f.vcodec != Some("none"@) && f.acodec == Some("none"@))
    ||| (f.vcodec == Some("none"@) && f.acodec != Some("none"@))
}

/// The resolution label of a converted format: the reported one, else
/// one derived from the height assuming 16:9, else a fixed label.
pub open spec fn spec_resolution(f: YtDlpFormatView) -> Seq<char> {
    match f.resolution {
        Some(r) => r,
        None => match f.height {
            Some(h) => crate::strutil::dec_str((h as nat) * 16 / 9) + "x"@ + crate::strutil::dec_str(
                h as nat,
            ),
            None => if f.vcodec == Some("none"@) {
                "audio only"@
            } else {
                "unknown"@
            },
        },
    }
}

/// The quality label of a converted format: the height with a `p`
/// suffix, else a fixed label.
pub open spec fn spec_quality_label(f: YtDlpFormatView) -> Seq<char> {
    match f.height {
        Some(h) => crate::strutil::dec_str(h as nat) + "p"@,
        None => if f.vcodec == Some("none"@) {
            "audio"@
        } else {
            "unknown"@
        },
    }
}

/// The catalog entry built from one surviving format entry.
pub open spec fn convert_format(f: YtDlpFormatView) -> FormatView {
    FormatView {
        format_id: f.format_id,
        ext: f.ext,
        resolution: spec_resolution(f),
        quality_label: spec_quality_label(f),
        filesize: f.filesize,
        fps: f.fps,
        vcodec: match f.vcodec {
            Some(v) => v,
            None => "unknown"@,
        },
        acodec: match f.acodec {
            Some(a) => a,
            None => "unknown"@,
        },
        tbr: f.tbr,
        format_note: match f.format_note {
            Some(n) => n,
            None => Seq::empty(),
        },
        hdr: spec_is_hdr(f),
        is_dash: spec_is_dash(f),
    }
}

/// Catalog construction over a whole format list: keep and convert, in
/// order.
pub open spec fn convert_formats(s: Seq<YtDlpFormatView>) -> Seq<FormatView>
    decreases s.len(),
{
    if s.len() == 0 {
        Seq::empty()
    } else {
        convert_formats(s.drop_last()) + if keep_format(s.last()) {
            seq![convert_format(s.last())]
        } else {
            Seq::empty()
        }
    }
}

/// Views of a format list.
pub open spec fn fmt_views(s: Seq<YtDlpFormat>) -> Seq<YtDlpFormatView> {
    s.map_values(|f: YtDlpFormat| f@)
}

/// Views of a catalog entry list.
pub open spec fn catalog_views(s: Seq<VideoFormat>) -> Seq<FormatView> {
    s.map_values(|f: VideoFormat| f@)
}

/// Every entry of a constructed catalog is playable material: never the
/// thumbnail-sprite container, never a storyboard identifier, and never
/// without both streams. The exclusion is part of construction itself,
/// for any input list.
pub proof fn lemma_catalog_excludes_junk(s: Seq<YtDlpFormatView>, i: int)
    requires
        0 <= i < convert_formats(s).len(),
    ensures
        convert_formats(s)[i].ext != "mhtml"@,
        !crate::text::starts_str(convert_formats(s)[i].format_id, "sb"@),
        !(convert_formats(s)[i].vcodec == "none"@ && convert_formats(s)[i].acodec == "none"@),
    decreases s.len(),
{
    broadcast use vstd::string::group_string_axioms;

    reveal_strlit("unknown");
    reveal_strlit("none");
    assert("unknown"@.len() == 7);
    assert("none"@.len() == 4);
    if s.len() > 0 {
        let pre = s.drop_last();
        if i < convert_formats(pre).len() {
            lemma_catalog_excludes_junk(pre, i);
            assert(convert_formats(s)[i] == convert_formats(pre)[i]);
        } else {
            let f = s.last();
            assert(keep_format(f));
            assert(convert_formats(s)[i] == convert_format(f));
            assert("unknown"@ != "none"@);
            assert(convert_format(f).vcodec == "none"@ ==> f.vcodec == Some("none"@));
            assert(convert_format(f).acodec == "none"@ ==> f.acodec == Some("none"@));
        }
    }
}

impl VideoInfo {
    /// Build the catalog from the external tool's JSON description:
    /// absent scalar fields default to zero or the empty string, and the
    /// format list is filtered and converted by `convert_formats`.
    pub fn from(output: YtDlpOutput) -> (r: VideoInfo)
        ensures
            r.id == output.id,
            r.title == output.title,
            r.duration == match output.duration {
                Some(d) => d,
                None => 0u32,
            },
            r.thumbnail@ == match output.thumbnail {
                Some(t) => t@,
                None => Seq::<char>::empty(),
            },
            r.uploader@ == match output.uploader {
                Some(t) => t@,
                None => Seq::<char>::empty(),
            },
            r.upload_date@ == match output.upload_date {
                Some(t) => t@,
                None => Seq::<char>::empty(),
            },
            r.description@ == match output.description {
                Some(t) => t@,
                None => Seq::<char>::empty(),
            },
            r.view_count == match output.view_count {
                Some(v) => v,
                None => 0u64,
            },
            catalog_views(r.formats@) == convert_formats(
                match output.formats {
                    Some(v) => fmt_views(v@),
                    None => Seq::empty(),
                },
            ),
    {
        let in_formats: Vec<YtDlpFormat> = match output.formats {
            Some(v) => v,
            None => Vec::new(),
        };
        let ghost src = fmt_views(in_formats@);
        let n = in_formats.len();
        let mut formats: Vec<VideoFormat> = Vec::new();
        let mut i: usize = 0;
        while i < n
            invariant
                i <= n,
                n == in_formats@.len(),
                src == fmt_views(in_formats@),
                catalog_views(formats@) == convert_formats(src.take(i as int)),
            decreases n - i,
        {
            let f = &in_formats[i];
            proof {
                assert(src[i as int] == f@);
                assert(src.take(i + 1).drop_last() =~= src.take(i as int));
                assert(src.take(i + 1).last() == src[i as int]);
            }
            let junk = crate::text::str_eq(f.ext.as_str(), "mhtml") || crate::text::str_starts_with(
                f.format_id.as_str(),
                "sb",
            );
            let vcodec_none = match &f.vcodec {
                Some(v) => crate::text::str_eq(v.as_str(), "none"),
                None => false,
            };
            let acodec_none = match &f.acodec {
                Some(a) => crate::text::str_eq(a.as_str(), "none"),
                None => false,
            };
            if !junk && !(vcodec_none && acodec_none) {
                let is_hdr = (match &f.hdr {
                    Some(h) => crate::text::str_eq(h.as_str(), "10"),
                    None => false,
                }) || (match &f.format_note {
                    Some(nt) => crate::text::str_contains(nt.as_str(), "HDR"),
                    None => false,
                });
                let is_dash = (match &f.format_note {
                    Some(nt) => crate::text::str_contains(nt.as_str(), "dash"),
                    None => false,
                }) || (!vcodec_none && acodec_none) || (vcodec_none && !acodec_none);
                let resolution: String = match &f.resolution {
                    Some(res) => res.clone(),
                    None => match f.height {
                        Some(h) => {
                            let w: u64 = (h as u64) * 16 / 9;
                            crate::strutil::u64_to_string(w).concat("x").concat(
                                crate::strutil::u64_to_string(h as u64).as_str(),
                            )
                        },
                        None => {
                            if vcodec_none {
                                "audio only".to_owned()
                            } else {
                                "unknown".to_owned()
                            }
                        },
                    },
                };
                let quality_label: String = match f.height {
                    Some(h) => crate::strutil::u64_to_string(h as u64).concat("p"),
                    None => {
                        if vcodec_none {
                            "audio".to_owned()
                        } else {
                            "unknown".to_owned()
                        }
                    },
                };
                let converted = VideoFormat {
                    format_id: f.format_id.clone(),
                    ext: f.ext.clone(),
                    resolution,
                    quality_label,
                    filesize: f.filesize,
                    fps: f.fps,
                    vcodec: match &f.vcodec {
                        Some(v) => v.clone(),
                        None => "unknown".to_owned(),
                    },
                    acodec: match &f.acodec {
                        Some(a) => a.clone(),
                        None => "unknown".to_owned(),
                    },
                    tbr: f.tbr,
                    format_note: match &f.format_note {
                        Some(nt) => nt.clone(),
                        None => String::new(),
                    },
                    hdr: is_hdr,
                    is_dash,
                };
                proof {
                    assert(converted@ =~~= convert_format(src[i as int]));
                }
                formats.push(converted);
                proof {
                    assert(catalog_views(formats@) =~~= convert_formats(src.take(i + 1)));
                }
            } else {
                proof {
                    assert(!keep_format(src[i as int]));
                    assert(catalog_views(formats@) =~~= convert_formats(src.take(i + 1)));
                }
            }
            i += 1;
        }
        proof {
            assert(src.take(n as int) =~= src);
        }
        VideoInfo {
            id: output.id,
            title: output.title,
            duration: match output.duration {
                Some(d) => d,
                None => 0,
            },
            thumbnail: match output.thumbnail {
                Some(t) => t,
                None => String::new(),
            },
            uploader: match output.uploader {
                Some(t) => t,
                None => String::new(),
            },
            upload_date: match output.upload_date {
                Some(t) => t,
                None => String::new(),
            },
            description: match output.description {
                Some(t) => t,
                None => String::new(),
            },
            view_count: match output.view_count {
                Some(v) => v,
                None => 0,
            },
            formats,
        }
    }
}

/// A caller's request to download one video.
#[derive(Clone, Debug)]
pub struct DownloadConfig {
    pub url: String,
    pub format_id: String,
    pub output_path: String,
    pub audio_only: bool,
    pub include_subtitles: bool,
    pub prefer_hdr: bool,
}

/// One remembered completed download.
#[derive(Clone, Debug)]
pub struct DownloadHistoryItem {
    pub id: String,
    pub title: String,
    pub url: String,
    pub file_path: String,
    pub download_date: String,
    pub thumbnail: String,
}

} // verus!
