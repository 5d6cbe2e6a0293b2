//! Choosing a concrete or combined format identifier from the catalog:
//! a complete stream when one fits, otherwise a synthesized
//! `"{video}+{audio}"` pair, and the fixed fallback ladder used after a
//! failed download.

use vstd::prelude::*;

verus! {

use vstd::string::StringExecFns;
use crate::text::contains_str;
use crate::types::{catalog_views, opt_str_view, FormatView, VideoFormat};

/// A complete descriptor: requested quality and container, both streams
/// present.
pub open spec fn complete_pred(f: FormatView, q: Seq<char>, e: Seq<char>) -> bool {
    f.quality_label == q && f.ext == e && f.vcodec != "none"@ && f.acodec != "none"@
}

/// A video-only descriptor of the requested quality.
pub open spec fn video_only_pred(f: FormatView, q: Seq<char>) -> bool {
    f.quality_label == q && f.vcodec != "none"@ && f.acodec == "none"@
}

/// An audio-only descriptor.
pub open spec fn audio_only_pred(f: FormatView) -> bool {
    f.vcodec == "none"@ && f.acodec != "none"@
}

/// Any descriptor with an audio stream.
pub open spec fn has_audio(f: FormatView) -> bool {
    f.acodec != "none"@
}

/// The bitrate key used to rank audio candidates; an absent bitrate
/// ranks lowest.
pub open spec fn tbr_key(f: FormatView) -> u32 {
    match f.tbr {
        Some(t) => t,
        None => 0,
    }
}

/// Index of the first descriptor at or after `i` satisfying `p`.
pub open spec fn find_fmt(s: Seq<FormatView>, i: int, p: spec_fn(FormatView) -> bool) -> Option<
    int,
>
    decreases s.len() - i,
    when 0 <= i
{
    if i >= s.len() {
        None
    } else if p(s[i]) {
        Some(i)
    } else {
        find_fmt(s, i + 1, p)
    }
}

/// A scan that saw `p` fail before `j` and hold at `j` (or reach the
/// end) has decided `find_fmt(s, 0, p)`.
pub proof fn lemma_find_fmt_stops(s: Seq<FormatView>, i: int, j: int, p: spec_fn(FormatView) -> bool)
    requires
        0 <= i <= j <= s.len(),
        forall|k: int| i <= k < j ==> !p(#[trigger] s[k]),
        j < s.len() ==> p(s[j]),
    ensures
        find_fmt(s, i, p) == if j == s.len() {
            None::<int>
        } else {
            Some(j)
        },
    decreases j - i,
{
    if i < j {
        lemma_find_fmt_stops(s, i + 1, j, p);
    }
}

/// Index of the best audio candidate: among descriptors with an audio
/// stream, the one with the highest bitrate key, the latest such on a
/// tie.
pub open spec fn max_audio_idx(s: Seq<FormatView>) -> Option<int>
    decreases s.len(),
{
    if s.len() == 0 {
        None
    } else {
        let rest = max_audio_idx(s.drop_last());
        if has_audio(s.last()) {
            match rest {
                None => Some(s.len() - 1),
                Some(k) => if tbr_key(s.last()) >= tbr_key(s[k]) {
                    Some(s.len() - 1)
                } else {
                    Some(k)
                },
            }
        } else {
            rest
        }
    }
}

/// What `find_fmt` finds satisfies `p`, and a miss means nothing at or
/// after `i` satisfies it.
pub proof fn lemma_find_fmt_found(s: Seq<FormatView>, i: int, p: spec_fn(FormatView) -> bool)
    requires
        0 <= i,
    ensures
        match find_fmt(s, i, p) {
            Some(j) => i <= j < s.len() && p(s[j]),
            None => forall|k: int| i <= k < s.len() ==> !p(#[trigger] s[k]),
        },
    decreases s.len() - i,
{
    if i < s.len() && !p(s[i]) {
        lemma_find_fmt_found(s, i + 1, p);
    }
}

/// The best audio candidate exists exactly when some descriptor has an
/// audio stream, and it has one itself.
pub proof fn lemma_max_audio_found(s: Seq<FormatView>)
    ensures
        match max_audio_idx(s) {
            Some(k) => 0 <= k < s.len() && has_audio(s[k]),
            None => forall|i: int| 0 <= i < s.len() ==> !has_audio(#[trigger] s[i]),
        },
    decreases s.len(),
{
    if s.len() > 0 {
        lemma_max_audio_found(s.drop_last());
        assert(forall|i: int| 0 <= i < s.len() - 1 ==> s.drop_last()[i] == s[i]);
    }
}

/// When a complete descriptor of the requested quality and container
/// exists, selection returns such a descriptor's identifier as is.
pub proof fn lemma_select_complete(s: Seq<FormatView>, q: Seq<char>, e: Seq<char>)
    requires
        exists|i: int| 0 <= i < s.len() && complete_pred(#[trigger] s[i], q, e),
    ensures
        exists|i: int|
            0 <= i < s.len() && complete_pred(#[trigger] s[i], q, e) && select_spec(s, q, e)
                == Some(s[i].format_id),
{
    lemma_find_fmt_found(s, 0, |f: FormatView| complete_pred(f, q, e));
    let j = find_fmt(s, 0, |f: FormatView| complete_pred(f, q, e)).unwrap();
    assert(0 <= j < s.len() && complete_pred(s[j], q, e) && select_spec(s, q, e) == Some(
        s[j].format_id,
    ));
}

/// When no complete descriptor fits but a video-only descriptor of the
/// requested quality and some audio-bearing descriptor both exist,
/// selection synthesizes a combined `"{video}+{audio}"` identifier from
/// such a pair.
pub proof fn lemma_select_combined(s: Seq<FormatView>, q: Seq<char>, e: Seq<char>)
    requires
        forall|i: int| 0 <= i < s.len() ==> !complete_pred(#[trigger] s[i], q, e),
        exists|i: int| 0 <= i < s.len() && video_only_pred(#[trigger] s[i], q),
        exists|i: int| 0 <= i < s.len() && has_audio(#[trigger] s[i]),
    ensures
        exists|v: int, a: int|
            0 <= v < s.len() && 0 <= a < s.len() && video_only_pred(#[trigger] s[v], q)
                && has_audio(#[trigger] s[a]) && select_spec(s, q, e) == Some(
                s[v].format_id + "+"@ + s[a].format_id,
            ),
{
    lemma_find_fmt_found(s, 0, |f: FormatView| complete_pred(f, q, e));
    lemma_find_fmt_found(s, 0, |f: FormatView| video_only_pred(f, q));
    let v = find_fmt(s, 0, |f: FormatView| video_only_pred(f, q)).unwrap();
    lemma_find_fmt_found(s, 0, |f: FormatView| audio_only_pred(f));
    lemma_max_audio_found(s);
    match find_fmt(s, 0, |f: FormatView| audio_only_pred(f)) {
        Some(a) => {
            assert(0 <= v < s.len() && 0 <= a < s.len() && video_only_pred(s[v], q) && has_audio(
                s[a],
            ) && select_spec(s, q, e) == Some(s[v].format_id + "+"@ + s[a].format_id));
        },
        None => {
            let a = max_audio_idx(s).unwrap();
            assert(0 <= v < s.len() && 0 <= a < s.len() && video_only_pred(s[v], q) && has_audio(
                s[a],
            ) && select_spec(s, q, e) == Some(s[v].format_id + "+"@ + s[a].format_id));
        },
    }
}

/// What `get_best_format_for_quality` returns, over the catalog's
/// views: the first complete descriptor's identifier; else, when a
/// video-only descriptor of the requested quality and some audio
/// candidate both exist, the two identifiers joined with `+`; else
/// nothing.
pub open spec fn select_spec(s: Seq<FormatView>, q: Seq<char>, e: Seq<char>) -> Option<Seq<char>> {
    match find_fmt(s, 0, |f: FormatView| complete_pred(f, q, e)) {
        Some(i) => Some(s[i].format_id),
        None => {
            let v = find_fmt(s, 0, |f: FormatView| video_only_pred(f, q));
            let a = match find_fmt(s, 0, |f: FormatView| audio_only_pred(f)) {
                Some(j) => Some(j),
                None => max_audio_idx(s),
            };
            match (v, a) {
                (Some(vi), Some(ai)) => Some(s[vi].format_id + "+"@ + s[ai].format_id),
                _ => None,
            }
        },
    }
}

/// Pick the format identifier to request for a quality label and a
/// preferred container, combining a video-only and an audio stream when
/// no complete stream fits; `None` means the caller must fall back to a
/// generic request.
pub fn get_best_format_for_quality(
    formats: &[VideoFormat],
    quality: &str,
    preferred_ext: &str,
) -> (r: Option<String>)
    ensures
        opt_str_view(r) == select_spec(catalog_views(formats@), quality@, preferred_ext@),
{
    let ghost s = catalog_views(formats@);
    let n = formats.len();
    // first pass: a complete descriptor
    let mut i: usize = 0;
    while i < n
        invariant
            i <= n,
            n == formats@.len(),
            s == catalog_views(formats@),
            forall|k: int| 0 <= k < i ==> !complete_pred(#[trigger] s[k], quality@, preferred_ext@),
        decreases n - i,
    {
        let f = &formats[i];
        if crate::text::str_eq(f.quality_label.as_str(), quality) && crate::text::str_eq(
            f.ext.as_str(),
            preferred_ext,
        ) && !crate::text::str_eq(f.vcodec.as_str(), "none") && !crate::text::str_eq(
            f.acodec.as_str(),
            "none",
        ) {
            proof {
                lemma_find_fmt_stops(
                    s,
                    0,
                    i as int,
                    |g: FormatView| complete_pred(g, quality@, preferred_ext@),
                );
            }
            return Some(f.format_id.clone());
        }
        i += 1;
    }
    proof {
        lemma_find_fmt_stops(
            s,
            0,
            n as int,
            |g: FormatView| complete_pred(g, quality@, preferred_ext@),
        );
    }
    // second pass: a video-only descriptor of the requested quality
    let mut vi: Option<usize> = None;
    let mut i: usize = 0;
    while i < n && vi.is_none()
        invariant
            i <= n,
            n == formats@.len(),
            s == catalog_views(formats@),
            match vi {
                Some(v) => v < n && video_only_pred(s[v as int], quality@) && find_fmt(
                    s,
                    0,
                    |g: FormatView| video_only_pred(g, quality@),
                ) == Some(v as int),
                None => forall|k: int|
                    0 <= k < i ==> !video_only_pred(#[trigger] s[k], quality@),
            },
        decreases n - i,
    {
        let f = &formats[i];
        if crate::text::str_eq(f.quality_label.as_str(), quality) && !crate::text::str_eq(
            f.vcodec.as_str(),
            "none",
        ) && crate::text::str_eq(f.acodec.as_str(), "none") {
            proof {
                lemma_find_fmt_stops(s, 0, i as int, |g: FormatView| video_only_pred(g, quality@));
            }
            vi = Some(i);
        }
        i += 1;
    }
    proof {
        if vi is None {
            lemma_find_fmt_stops(s, 0, n as int, |g: FormatView| video_only_pred(g, quality@));
        }
    }
    // third pass: an audio-only descriptor, else the best audio candidate
    let mut ai: Option<usize> = None;
    let mut i: usize = 0;
    while i < n && ai.is_none()
        invariant
            i <= n,
            n == formats@.len(),
            s == catalog_views(formats@),
            match ai {
                Some(a) => a < n && find_fmt(s, 0, |g: FormatView| audio_only_pred(g)) == Some(
                    a as int,
                ),
                None => forall|k: int| 0 <= k < i ==> !audio_only_pred(#[trigger] s[k]),
            },
        decreases n - i,
    {
        let f = &formats[i];
        if crate::text::str_eq(f.vcodec.as_str(), "none") && !crate::text::str_eq(
            f.acodec.as_str(),
            "none",
        ) {
            proof {
                lemma_find_fmt_stops(s, 0, i as int, |g: FormatView| audio_only_pred(g));
            }
            ai = Some(i);
        }
        i += 1;
    }
    let ai: Option<usize> = match ai {
        Some(a) => Some(a),
        None => {
            proof {
                lemma_find_fmt_stops(s, 0, n as int, |g: FormatView| audio_only_pred(g));
            }
            let mut best: Option<usize> = None;
            let mut best_key: u32 = 0;
            let mut i: usize = 0;
            while i < n
                invariant
                    i <= n,
                    n == formats@.len(),
                    s == catalog_views(formats@),
                    match best {
                        Some(b) => b < i && max_audio_idx(s.take(i as int)) == Some(b as int)
                            && best_key == tbr_key(s[b as int]),
                        None => max_audio_idx(s.take(i as int)) == None::<int>,
                    },
                decreases n - i,
            {
                let f = &formats[i];
                let has_aud = !crate::text::str_eq(f.acodec.as_str(), "none");
                let key: u32 = match f.tbr {
                    Some(t) => t,
                    None => 0,
                };
                proof {
                    assert(s[i as int] == formats@[i as int]@);
                    assert(s.take(i + 1).drop_last() =~= s.take(i as int));
                    assert(s.take(i + 1).last() == s[i as int]);
                    assert(forall|k: int| 0 <= k < i ==> s.take(i + 1)[k] == s[k]);
                    assert(has_aud == has_audio(s[i as int]));
                    assert(key == tbr_key(s[i as int]));
                }
                if has_aud {
                    match best {
                        Some(_) => {
                            if key >= best_key {
                                best = Some(i);
                                best_key = key;
                                proof {
                                    assert(max_audio_idx(s.take(i + 1)) == Some(i as int));
                                }
                            } else {
                                proof {
                                    assert(max_audio_idx(s.take(i + 1)) == max_audio_idx(
                                        s.take(i as int),
                                    ));
                                }
                            }
                        },
                        None => {
                            best = Some(i);
                            best_key = key;
                            proof {
                                assert(max_audio_idx(s.take(i + 1)) == Some(i as int));
                            }
                        },
                    }
                } else {
                    proof {
                        assert(max_audio_idx(s.take(i + 1)) == max_audio_idx(s.take(i as int)));
                    }
                }
                i += 1;
            }
            proof {
                assert(s.take(n as int) =~= s);
            }
            best
        },
    };
    match (vi, ai) {
        (Some(v), Some(a)) => {
            let combined = formats[v].format_id.clone().concat("+").concat(
                formats[a].format_id.as_str(),
            );
            proof {
                assert(combined@ =~= s[v as int].format_id + "+"@ + s[a as int].format_id);
            }
            Some(combined)
        },
        _ => None,
    }
}

/// The fixed fallback ladder for a failed download: progressively lower
/// resolutions for ultra-high-resolution identifiers, always ending in
/// the two universal catch-alls.
pub open spec fn fallback_spec(fmt: Seq<char>) -> Seq<Seq<char>> {
    if contains_str(fmt, "701"@) || contains_str(fmt, "315"@) || contains_str(fmt, "337"@) {
        seq!["308+258"@, "299+258"@, "136+258"@, "best[height<=1080]"@, "best"@, "worst"@]
    } else if contains_str(fmt, "308"@) {
        seq!["299+258"@, "136+258"@, "best[height<=720]"@, "best"@, "worst"@]
    } else {
        seq!["best"@, "worst"@]
    }
}

/// The fallback ladder always ends in the two universal catch-alls,
/// whatever identifier failed.
pub proof fn lemma_fallbacks_end_in_catchalls(fmt: Seq<char>)
    ensures
        fallback_spec(fmt).len() >= 2,
        fallback_spec(fmt)[fallback_spec(fmt).len() - 2] == "best"@,
        fallback_spec(fmt)[fallback_spec(fmt).len() - 1] == "worst"@,
{
}

/// Views of a list of owned strings.
pub open spec fn strings_view(v: Seq<String>) -> Seq<Seq<char>> {
    v.map_values(|s: String| s@)
}

/// The recommended fallback identifiers for a failed download request,
/// best first.
pub fn get_fallback_formats(original_format: &str) -> (r: Vec<String>)
    ensures
        strings_view(r@) == fallback_spec(original_format@),
{
    let mut fallbacks: Vec<String> = Vec::new();
    if crate::text::str_contains(original_format, "701") || crate::text::str_contains(
        original_format,
        "315",
    ) || crate::text::str_contains(original_format, "337") {
        fallbacks.push("308+258".to_owned());
        fallbacks.push("299+258".to_owned());
        fallbacks.push("136+258".to_owned());
        fallbacks.push("best[height<=1080]".to_owned());
    } else if crate::text::str_contains(original_format, "308") {
        fallbacks.push("299+258".to_owned());
        fallbacks.push("136+258".to_owned());
        fallbacks.push("best[height<=720]".to_owned());
    }
    fallbacks.push("best".to_owned());
    fallbacks.push("worst".to_owned());
    proof {
        assert(strings_view(fallbacks@) =~= fallback_spec(original_format@));
    }
    fallbacks
}

} // verus!
