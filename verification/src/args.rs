//! Construction of the external tool's argument lists: the download
//! invocation with its resilience flags, the metadata-only invocation,
//! and the diagnostic invocation; and the choice of the effective
//! format identifier for audio-only requests.

use vstd::prelude::*;

verus! {

use vstd::string::StringExecFns;
use crate::select::strings_view;
use crate::text::contains_str;

/// The output template placed under the destination directory.
pub open spec fn output_template(out: Seq<char>) -> Seq<char> {
    out + "/%(title)s.%(ext)s"@
}

/// The argument list of a download invocation: format and output
/// placement, the merge instruction when the identifier combines two
/// streams, and the fixed resilience and progress-reporting flags.
pub open spec fn download_args_spec(
    url: Seq<char>,
    fmt: Seq<char>,
    out: Seq<char>,
    ff: Seq<char>,
) -> Seq<Seq<char>> {
    seq!["-f"@, fmt, "-o"@, output_template(out), "--no-playlist"@] + (if contains_str(
        fmt,
        "+"@,
    ) {
        seq!["--merge-output-format"@, "mp4"@]
    } else {
        Seq::empty()
    }) + seq![
        "--retries"@,
        "10"@,
        "--fragment-retries"@,
        "10"@,
        "--retry-sleep"@,
        "linear=1:5:10"@,
        "--socket-timeout"@,
        "30"@,
        "--no-check-certificates"@,
        "--user-agent"@,
        "Mozilla/5.0 (Macintosh; Intel Mac OS X 10_15_7) AppleWebKit/537.36"@,
        "--ffmpeg-location"@,
        ff,
        "--embed-metadata"@,
        "--write-thumbnail"@,
        "--convert-thumbnails"@,
        "jpg"@,
        "--newline"@,
        "--no-colors"@,
        "--progress"@,
        url,
    ]
}

/// Build the argument list of a download invocation.
pub fn build_download_args(url: &str, format_id: &str, output_path: &str, ffmpeg_path: &str) -> (r:
    Vec<String>)
    ensures
        strings_view(r@) == download_args_spec(url@, format_id@, output_path@, ffmpeg_path@),
{
    let mut args: Vec<String> = Vec::new();
    args.push("-f".to_owned());
    args.push(format_id.to_owned());
    args.push("-o".to_owned());
    args.push(output_path.to_owned().concat("/%(title)s.%(ext)s"));
    args.push("--no-playlist".to_owned());
    if crate::text::str_contains(format_id, "+") {
        args.push("--merge-output-format".to_owned());
        args.push("mp4".to_owned());
    }
    args.push("--retries".to_owned());
    args.push("10".to_owned());
    args.push("--fragment-retries".to_owned());
    args.push("10".to_owned());
    args.push("--retry-sleep".to_owned());
    args.push("linear=1:5:10".to_owned());
    args.push("--socket-timeout".to_owned());
    args.push("30".to_owned());
    args.push("--no-check-certificates".to_owned());
    args.push("--user-agent".to_owned());
    args.push("Mozilla/5.0 (Macintosh; Intel Mac OS X 10_15_7) AppleWebKit/537.36".to_owned());
    args.push("--ffmpeg-location".to_owned());
    args.push(ffmpeg_path.to_owned());
    args.push("--embed-metadata".to_owned());
    args.push("--write-thumbnail".to_owned());
    args.push("--convert-thumbnails".to_owned());
    args.push("jpg".to_owned());
    args.push("--newline".to_owned());
    args.push("--no-colors".to_owned());
    args.push("--progress".to_owned());
    args.push(url.to_owned());
    proof {
        assert(strings_view(args@) =~~= download_args_spec(
            url@,
            format_id@,
            output_path@,
            ffmpeg_path@,
        ));
    }
    args
}

/// A combined identifier requests the merge instruction, a plain one
/// does not: the merge flag stands in the argument list exactly when
/// the format identifier joins two streams with `+`. The three free
/// string inputs must not themselves spell the flag.
pub proof fn lemma_merge_flag_iff(url: Seq<char>, fmt: Seq<char>, out: Seq<char>, ff: Seq<char>)
    requires
        url != "--merge-output-format"@,
        fmt != "--merge-output-format"@,
        ff != "--merge-output-format"@,
    ensures
        download_args_spec(url, fmt, out, ff).contains("--merge-output-format"@) <==> contains_str(
            fmt,
            "+"@,
        ),
{
    let args = download_args_spec(url, fmt, out, ff);
    let flag = "--merge-output-format"@;
    broadcast use vstd::string::group_string_axioms;

    reveal_strlit("--merge-output-format");
    if contains_str(fmt, "+"@) {
        assert(args[5] == flag);
        assert(args.contains(flag));
    } else {
        reveal_strlit("-f");
        reveal_strlit("-o");
        reveal_strlit("--no-playlist");
        reveal_strlit("--retries");
        reveal_strlit("10");
        reveal_strlit("--fragment-retries");
        reveal_strlit("--retry-sleep");
        reveal_strlit("linear=1:5:10");
        reveal_strlit("--socket-timeout");
        reveal_strlit("30");
        reveal_strlit("--no-check-certificates");
        reveal_strlit("--user-agent");
        reveal_strlit("Mozilla/5.0 (Macintosh; Intel Mac OS X 10_15_7) AppleWebKit/537.36");
        reveal_strlit("--ffmpeg-location");
        reveal_strlit("--embed-metadata");
        reveal_strlit("--write-thumbnail");
        reveal_strlit("--convert-thumbnails");
        reveal_strlit("jpg");
        reveal_strlit("--newline");
        reveal_strlit("--no-colors");
        reveal_strlit("--progress");
        reveal_strlit("/%(title)s.%(ext)s");
        assert("--merge-output-format"@.len() == 21);
        assert("-f"@.len() == 2);
        assert("-o"@.len() == 2);
        assert("--no-playlist"@.len() == 13);
        assert("--retries"@.len() == 9);
        assert("10"@.len() == 2);
        assert("--fragment-retries"@.len() == 18);
        assert("--retry-sleep"@.len() == 13);
        assert("linear=1:5:10"@.len() == 13);
        assert("--socket-timeout"@.len() == 16);
        assert("30"@.len() == 2);
        assert("--no-check-certificates"@.len() == 23);
        assert("--user-agent"@.len() == 12);
        assert("Mozilla/5.0 (Macintosh; Intel Mac OS X 10_15_7) AppleWebKit/537.36"@.len() == 66);
        assert("--ffmpeg-location"@.len() == 17);
        assert("--embed-metadata"@.len() == 16);
        assert("--write-thumbnail"@.len() == 17);
        assert("--convert-thumbnails"@.len() == 20);
        assert("jpg"@.len() == 3);
        assert("--newline"@.len() == 9);
        assert("--no-colors"@.len() == 11);
        assert("--progress"@.len() == 10);
        assert("/%(title)s.%(ext)s"@.len() == 18);
        assert(output_template(out).len() > 0);
        assert(output_template(out).last() == 's') by {
            assert(output_template(out).last() == "/%(title)s.%(ext)s"@.last());
        }
        assert(output_template(out) != flag);
        assert(args.len() == 26);
        assert forall|i: int| 0 <= i < 26 implies #[trigger] args[i] != flag by {
            if i == 0 {
                assert(args[0] != flag);
            }
            if i == 1 {
                assert(args[1] != flag);
            }
            if i == 2 {
                assert(args[2] != flag);
            }
            if i == 3 {
                assert(args[3] != flag);
            }
            if i == 4 {
                assert(args[4] != flag);
            }
            if i == 5 {
                assert(args[5] != flag);
            }
            if i == 6 {
                assert(args[6] != flag);
            }
            if i == 7 {
                assert(args[7] != flag);
            }
            if i == 8 {
                assert(args[8] != flag);
            }
            if i == 9 {
                assert(args[9] != flag);
            }
            if i == 10 {
                assert(args[10] != flag);
            }
            if i == 11 {
                assert(args[11] != flag);
            }
            if i == 12 {
                assert(args[12] != flag);
            }
            if i == 13 {
                assert(args[13] != flag);
            }
            if i == 14 {
                assert(args[14] != flag);
            }
            if i == 15 {
                assert(args[15] != flag);
            }
            if i == 16 {
                assert(args[16] != flag);
            }
            if i == 17 {
                assert(args[17] != flag);
            }
            if i == 18 {
                assert(args[18] != flag);
            }
            if i == 19 {
                assert(args[19] != flag);
            }
            if i == 20 {
                assert(args[20] != flag);
            }
            if i == 21 {
                assert(args[21] != flag);
            }
            if i == 22 {
                assert(args[22] != flag);
            }
            if i == 23 {
                assert(args[23] != flag);
            }
            if i == 24 {
                assert(args[24] != flag);
            }
            if i == 25 {
                assert(args[25] != flag);
            }
        }
        if args.contains(flag) {
            let i = choose|i: int| 0 <= i < args.len() && args[i] == flag;
            assert(false);
        }
    }
}

/// The metadata-only invocation: one JSON document for one video, all
/// formats listed, sorted by resolution, frame rate, dynamic range and
/// codecs.
pub open spec fn info_args_spec(url: Seq<char>, ff: Seq<char>) -> Seq<Seq<char>> {
    seq![
        "-J"@,
        "--no-playlist"@,
        "--all-formats"@,
        "--format-sort"@,
        "res,fps,hdr:12,vcodec:vp9.2,acodec"@,
        "--ffmpeg-location"@,
        ff,
        url,
    ]
}

/// Build the argument list of a metadata-only invocation.
pub fn build_info_args(url: &str, ffmpeg_path: &str) -> (r: Vec<String>)
    ensures
        strings_view(r@) == info_args_spec(url@, ffmpeg_path@),
{
    let mut args: Vec<String> = Vec::new();
    args.push("-J".to_owned());
    args.push("--no-playlist".to_owned());
    args.push("--all-formats".to_owned());
    args.push("--format-sort".to_owned());
    args.push("res,fps,hdr:12,vcodec:vp9.2,acodec".to_owned());
    args.push("--ffmpeg-location".to_owned());
    args.push(ffmpeg_path.to_owned());
    args.push(url.to_owned());
    proof {
        assert(strings_view(args@) =~~= info_args_spec(url@, ffmpeg_path@));
    }
    args
}

/// The simulate-only invocation used for network diagnosis: verbose,
/// never writing to disk.
pub open spec fn diagnose_args_spec(url: Seq<char>, ff: Seq<char>) -> Seq<Seq<char>> {
    seq!["--simulate"@, "--no-playlist"@, "--verbose"@, "--ffmpeg-location"@, ff, url]
}

/// Build the argument list of a simulate-only diagnostic invocation.
pub fn build_diagnose_args(url: &str, ffmpeg_path: &str) -> (r: Vec<String>)
    ensures
        strings_view(r@) == diagnose_args_spec(url@, ffmpeg_path@),
{
    let mut args: Vec<String> = Vec::new();
    args.push("--simulate".to_owned());
    args.push("--no-playlist".to_owned());
    args.push("--verbose".to_owned());
    args.push("--ffmpeg-location".to_owned());
    args.push(ffmpeg_path.to_owned());
    args.push(url.to_owned());
    proof {
        assert(strings_view(args@) =~~= diagnose_args_spec(url@, ffmpeg_path@));
    }
    args
}

/// The format identifier actually requested: an audio-only request
/// keeps an identifier that already names an audio stream and otherwise
/// falls back to the generic best-audio request.
pub open spec fn effective_format_spec(fmt: Seq<char>, audio_only: bool) -> Seq<char> {
    if audio_only {
        if contains_str(fmt, "audio"@) {
            fmt
        } else {
            "bestaudio/best"@
        }
    } else {
        fmt
    }
}

/// Choose the format identifier to hand the external tool for a
/// request.
pub fn effective_format_id(format_id: &str, audio_only: bool) -> (r: String)
    ensures
        r@ == effective_format_spec(format_id@, audio_only),
{
    if audio_only {
        if crate::text::str_contains(format_id, "audio") {
            format_id.to_owned()
        } else {
            "bestaudio/best".to_owned()
        }
    } else {
        format_id.to_owned()
    }
}

} // verus!
