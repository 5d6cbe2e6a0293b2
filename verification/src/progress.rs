//! The line-oriented progress protocol of the external tool: a
//! byte-level grammar for its progress and completion lines, and the
//! stateful tracker that turns one line of output into at most one
//! progress event.

use vstd::prelude::*;

verus! {

use vstd::string::StringSliceAdditionalSpecFns;
use crate::text::{contains_seq, find_from, is_digit_or_colon_byte, is_digit_or_dot_byte,
    is_word_byte, last_index_of, matches_at, seek};
use crate::parse::{num_mantissa, frac_len, scaled_size, parse_size_spec, parse_eta_spec,
    seek_ws, seek_digits, scan_ws, scan_digits};
use crate::types::{DownloadProgress, DownloadStatus, ProgressView};
use crate::text::is_digit_byte;

/// First position at or after `i` that is not a word byte.
pub open spec fn seek_word(s: Seq<u8>, i: int) -> int {
    seek(s, i, |b: u8| is_word_byte(b))
}

/// First position at or after `i` that is neither digit nor dot.
pub open spec fn seek_dd(s: Seq<u8>, i: int) -> int {
    seek(s, i, |b: u8| is_digit_or_dot_byte(b))
}

/// First position at or after `i` that is neither digit nor colon.
pub open spec fn seek_dc(s: Seq<u8>, i: int) -> int {
    seek(s, i, |b: u8| is_digit_or_colon_byte(b))
}

/// Advance `i` past word bytes (letters, digits, underscore).
fn scan_word(s: &[u8], from: usize) -> (r: usize)
    requires
        from <= s@.len(),
    ensures
        r == seek_word(s@, from as int),
        from <= r <= s@.len(),
{
    let n = s.len();
    let mut i = from;
    while i < n && ((65 <= s[i] && s[i] <= 90) || (97 <= s[i] && s[i] <= 122) || (48 <= s[i] && s[i]
        <= 57) || s[i] == 95)
        invariant
            from <= i <= n,
            n == s@.len(),
            forall|k: int| from <= k < i ==> is_word_byte(#[trigger] s@[k]),
        decreases n - i,
    {
        i += 1;
    }
    proof {
        crate::text::lemma_seek_stops(s@, from as int, i as int, |b: u8| is_word_byte(b));
    }
    i
}

/// Advance `i` past digits and dots.
fn scan_dd(s: &[u8], from: usize) -> (r: usize)
    requires
        from <= s@.len(),
    ensures
        r == seek_dd(s@, from as int),
        from <= r <= s@.len(),
{
    let n = s.len();
    let mut i = from;
    while i < n && ((48 <= s[i] && s[i] <= 57) || s[i] == 46)
        invariant
            from <= i <= n,
            n == s@.len(),
            forall|k: int| from <= k < i ==> is_digit_or_dot_byte(#[trigger] s@[k]),
        decreases n - i,
    {
        i += 1;
    }
    proof {
        crate::text::lemma_seek_stops(s@, from as int, i as int, |b: u8| is_digit_or_dot_byte(b));
    }
    i
}

/// Advance `i` past digits and colons.
fn scan_dc(s: &[u8], from: usize) -> (r: usize)
    requires
        from <= s@.len(),
    ensures
        r == seek_dc(s@, from as int),
        from <= r <= s@.len(),
{
    let n = s.len();
    let mut i = from;
    while i < n && ((48 <= s[i] && s[i] <= 57) || s[i] == 58)
        invariant
            from <= i <= n,
            n == s@.len(),
            forall|k: int| from <= k < i ==> is_digit_or_colon_byte(#[trigger] s@[k]),
        decreases n - i,
    {
        i += 1;
    }
    proof {
        crate::text::lemma_seek_stops(s@, from as int, i as int, |b: u8| is_digit_or_colon_byte(b));
    }
    i
}

/// The four captured tokens of a regular progress line.
#[verifier::ext_equal]
pub ghost struct ProgressTok {
    pub percent: Seq<u8>,
    pub size: Seq<u8>,
    pub speed: Seq<u8>,
    pub eta: Seq<u8>,
}

/// A regular progress line: the `[download]` tag, then a percentage, a
/// size token, a speed token and a clock-style time remaining, in that
/// order with whitespace and the fixed words `of`, `at` and `ETA`
/// between them. Scanning is greedy and deterministic.
pub open spec fn progress_match(s: Seq<u8>) -> Option<ProgressTok> {
    match find_from(s, "[download]".spec_bytes(), 0) {
        None => None,
        Some(d) => {
            let i0 = d + "[download]".spec_bytes().len();
            let i1 = seek_ws(s, i0);
            if i1 == i0 {
                None
            } else {
                let pe = seek_digits(s, i1);
                if pe == i1 {
                    None
                } else {
                    let pe2 = if pe < s.len() && s[pe] == 46 {
                        seek_digits(s, pe + 1)
                    } else {
                        pe
                    };
                    if !(pe2 < s.len() && s[pe2] == 37) {
                        None
                    } else {
                        let i2 = seek_ws(s, pe2 + 1);
                        if i2 == pe2 + 1 {
                            None
                        } else if !matches_at(s, "of".spec_bytes(), i2) {
                            None
                        } else {
                            let i3 = seek_ws(s, i2 + "of".spec_bytes().len());
                            if i3 == i2 + "of".spec_bytes().len() {
                                None
                            } else {
                                let sn = seek_dd(s, i3);
                                if sn == i3 {
                                    None
                                } else {
                                    let se = seek_word(s, sn);
                                    if se == sn {
                                        None
                                    } else {
                                        let i4 = seek_ws(s, se);
                                        if i4 == se {
                                            None
                                        } else if !matches_at(s, "at".spec_bytes(), i4) {
                                            None
                                        } else {
                                            let i5 = seek_ws(s, i4 + "at".spec_bytes().len());
                                            if i5 == i4 + "at".spec_bytes().len() {
                                                None
                                            } else {
                                                progress_match_tail(s, i1, pe2, i3, se, i5)
                                            }
                                        }
                                    }
                                }
                            }
                        }
                    }
                }
            }
        },
    }
}

/// Tail of the progress grammar, from the speed token on.
pub open spec fn progress_match_tail(
    s: Seq<u8>,
    i1: int,
    pe2: int,
    i3: int,
    se: int,
    i5: int,
) -> Option<ProgressTok> {
    let pn = seek_dd(s, i5);
    if pn == i5 {
        None
    } else {
        let pend = seek_word(s, pn);
        if pend == pn {
            None
        } else if !matches_at(s, "/s".spec_bytes(), pend) {
            None
        } else {
            let i6 = seek_ws(s, pend + "/s".spec_bytes().len());
            if i6 == pend + "/s".spec_bytes().len() {
                None
            } else if !matches_at(s, "ETA".spec_bytes(), i6) {
                None
            } else {
                let i7 = seek_ws(s, i6 + "ETA".spec_bytes().len());
                if i7 == i6 + "ETA".spec_bytes().len() {
                    None
                } else {
                    let ee = seek_dc(s, i7);
                    if ee == i7 {
                        None
                    } else {
                        Some(
                            ProgressTok {
                                percent: s.subrange(i1, pe2),
                                size: s.subrange(i3, se),
                                speed: s.subrange(i5, pend),
                                eta: s.subrange(i7, ee),
                            },
                        )
                    }
                }
            }
        }
    }
}

/// A completion line: the `[download]` tag, a literal `100%`, a size
/// token, an elapsed clock time introduced by `in`, and a speed token.
/// The captured value is the size token.
pub open spec fn complete_match(s: Seq<u8>) -> Option<Seq<u8>> {
    match find_from(s, "[download]".spec_bytes(), 0) {
        None => None,
        Some(d) => {
            let i0 = d + "[download]".spec_bytes().len();
            let i1 = seek_ws(s, i0);
            if i1 == i0 {
                None
            } else if !matches_at(s, "100%".spec_bytes(), i1) {
                None
            } else {
                let i2 = seek_ws(s, i1 + "100%".spec_bytes().len());
                if i2 == i1 + "100%".spec_bytes().len() {
                    None
                } else if !matches_at(s, "of".spec_bytes(), i2) {
                    None
                } else {
                    let i3 = seek_ws(s, i2 + "of".spec_bytes().len());
                    if i3 == i2 + "of".spec_bytes().len() {
                        None
                    } else {
                        let sn = seek_dd(s, i3);
                        if sn == i3 {
                            None
                        } else {
                            let se = seek_word(s, sn);
                            if se == sn {
                                None
                            } else {
                                let i4 = seek_ws(s, se);
                                if i4 == se {
                                    None
                                } else if !matches_at(s, "in".spec_bytes(), i4) {
                                    None
                                } else {
                                    complete_match_tail(s, i3, se, i4)
                                }
                            }
                        }
                    }
                }
            }
        },
    }
}

/// Tail of the completion grammar, from the elapsed time on.
pub open spec fn complete_match_tail(s: Seq<u8>, i3: int, se: int, i4: int) -> Option<Seq<u8>> {
    let i5 = seek_ws(s, i4 + "in".spec_bytes().len());
    if i5 == i4 + "in".spec_bytes().len() {
        None
    } else {
        let el = seek_dc(s, i5);
        if el == i5 {
            None
        } else {
            let i6 = seek_ws(s, el);
            if i6 == el {
                None
            } else if !matches_at(s, "at".spec_bytes(), i6) {
                None
            } else {
                let i7 = seek_ws(s, i6 + "at".spec_bytes().len());
                if i7 == i6 + "at".spec_bytes().len() {
                    None
                } else {
                    let pn = seek_dd(s, i7);
                    if pn == i7 {
                        None
                    } else {
                        let pend = seek_word(s, pn);
                        if pend == pn {
                            None
                        } else if !matches_at(s, "/s".spec_bytes(), pend) {
                            None
                        } else {
                            Some(s.subrange(i3, se))
                        }
                    }
                }
            }
        }
    }
}

/// The percentage token's value in hundredths of a percent, rounded
/// down and saturating.
pub open spec fn percent_value(tok: Seq<u8>) -> u32 {
    if num_mantissa(tok) > u64::MAX {
        u32::MAX
    } else {
        let v = scaled_size(num_mantissa(tok), 100, frac_len(tok));
        if v > u32::MAX {
            u32::MAX
        } else {
            v as u32
        }
    }
}

/// Bytes transferred so far: `total` scaled by the percentage, rounded
/// down and saturating.
pub open spec fn downloaded_bytes(total: u64, pct: u32) -> u64 {
    let d = (total * pct) / 10000;
    if d > u64::MAX {
        u64::MAX
    } else {
        d as u64
    }
}

/// Running context of one download's stdout stream.
#[verifier::ext_equal]
pub ghost struct TrackView {
    pub last_total_bytes: u64,
    pub current_filename: Seq<char>,
}

/// The progress event emitted for a processing phase: pinned at 100%,
/// labelled with the phase, carrying the last known totals.
pub open spec fn processing_event(total: u64, label: Seq<char>) -> ProgressView {
    ProgressView {
        status: DownloadStatus::Processing,
        percent: 10000,
        speed: 0,
        eta: 0,
        downloaded: total,
        total: total,
        filename: label,
        file_path: None,
    }
}

/// What one line of stdout does to the tracker, and which event it
/// emits: the context filename follows destination announcements, the
/// three processing phases emit pinned events, completion and progress
/// lines emit `downloading` events with parsed fields, and any other
/// line is ignored.
pub open spec fn step(st: TrackView, line: Seq<char>) -> (TrackView, Option<ProgressView>) {
    let bytes = vstd::utf8::encode_utf8(line);
    let fname = if contains_seq(bytes, "[download] Destination:".spec_bytes()) {
        match last_index_of(bytes, 47) {
            Some(p) => vstd::utf8::decode_utf8(bytes.subrange(p + 1, bytes.len() as int)),
            None => st.current_filename,
        }
    } else {
        st.current_filename
    };
    if contains_seq(bytes, "[Merger] Merging formats".spec_bytes()) {
        (
            TrackView { last_total_bytes: st.last_total_bytes, current_filename: fname },
            Some(processing_event(st.last_total_bytes, "Merging video and audio..."@)),
        )
    } else if contains_seq(bytes, "[Metadata] Adding metadata".spec_bytes()) {
        (
            TrackView { last_total_bytes: st.last_total_bytes, current_filename: fname },
            Some(processing_event(st.last_total_bytes, "Adding metadata..."@)),
        )
    } else if contains_seq(bytes, "Deleting original file".spec_bytes()) {
        (
            TrackView { last_total_bytes: st.last_total_bytes, current_filename: fname },
            Some(processing_event(st.last_total_bytes, "Cleaning up temporary files..."@)),
        )
    } else {
        match complete_match(bytes) {
            Some(size_tok) => {
                let total = parse_size_spec(size_tok);
                (
                    TrackView { last_total_bytes: total, current_filename: fname },
                    Some(
                        ProgressView {
                            status: DownloadStatus::Downloading,
                            percent: 10000,
                            speed: 0,
                            eta: 0,
                            downloaded: total,
                            total: total,
                            filename: fname,
                            file_path: None,
                        },
                    ),
                )
            },
            None => match progress_match(bytes) {
                Some(tok) => {
                    let total = parse_size_spec(tok.size);
                    let pct = percent_value(tok.percent);
                    (
                        TrackView { last_total_bytes: total, current_filename: fname },
                        Some(
                            ProgressView {
                                status: DownloadStatus::Downloading,
                                percent: pct,
                                speed: parse_size_spec(tok.speed),
                                eta: parse_eta_spec(tok.eta),
                                downloaded: downloaded_bytes(total, pct),
                                total: total,
                                filename: fname,
                                file_path: None,
                            },
                        ),
                    )
                },
                None => (
                    TrackView { last_total_bytes: st.last_total_bytes, current_filename: fname },
                    None,
                ),
            },
        }
    }
}

/// No event parsed out of the stream is terminal: the one terminal
/// event of a download comes from exit-status reconciliation, never
/// from a line of output.
pub proof fn lemma_stream_events_not_terminal(st: TrackView, line: Seq<char>)
    ensures
        match step(st, line).1 {
            Some(e) => !crate::types::is_terminal(e.status),
            None => true,
        },
{
}

/// View of an optional progress event.
pub open spec fn opt_ev_view(r: Option<DownloadProgress>) -> Option<ProgressView> {
    match r {
        Some(e) => Some(e@),
        None => None,
    }
}

/// Byte spans of the four tokens of a matched progress line.
struct ProgressSpans {
    p_lo: usize,
    p_hi: usize,
    sz_lo: usize,
    sz_hi: usize,
    sp_lo: usize,
    sp_hi: usize,
    e_lo: usize,
    e_hi: usize,
}

impl ProgressSpans {
    spec fn wf(&self, s: Seq<u8>) -> bool {
        &&& self.p_lo <= self.p_hi <= s.len()
        &&& self.sz_lo <= self.sz_hi <= s.len()
        &&& self.sp_lo <= self.sp_hi <= s.len()
        &&& self.e_lo <= self.e_hi <= s.len()
    }

    spec fn toks(&self, s: Seq<u8>) -> ProgressTok {
        ProgressTok {
            percent: s.subrange(self.p_lo as int, self.p_hi as int),
            size: s.subrange(self.sz_lo as int, self.sz_hi as int),
            speed: s.subrange(self.sp_lo as int, self.sp_hi as int),
            eta: s.subrange(self.e_lo as int, self.e_hi as int),
        }
    }
}

/// Match the regular progress grammar against a line.
fn match_progress(b: &[u8]) -> (r: Option<ProgressSpans>)
    ensures
        match r {
            Some(sp) => sp.wf(b@) && progress_match(b@) == Some(sp.toks(b@)),
            None => progress_match(b@) == None::<ProgressTok>,
        },
{
    let n = b.len();
    let dl = "[download]".as_bytes();
    let d = match crate::text::find_subslice(b, dl) {
        Some(d) => d,
        None => {
            return None;
        },
    };
    proof {
        crate::text::lemma_find_from(b@, dl@, 0);
    }
    let i0 = d + dl.len();
    let i1 = scan_ws(b, i0);
    if i1 == i0 {
        return None;
    }
    let pe = scan_digits(b, i1);
    if pe == i1 {
        return None;
    }
    let pe2 = if pe < n && b[pe] == 46 {
        scan_digits(b, pe + 1)
    } else {
        pe
    };
    if !(pe2 < n && b[pe2] == 37) {
        return None;
    }
    let i2 = scan_ws(b, pe2 + 1);
    if i2 == pe2 + 1 {
        return None;
    }
    let of = "of".as_bytes();
    if (i2 as u128) + (of.len() as u128) > (n as u128) {
        return None;
    }
    if !crate::text::matches_prefix_at(b, of, i2) {
        return None;
    }
    let i3 = scan_ws(b, i2 + of.len());
    if i3 == i2 + of.len() {
        return None;
    }
    let sn = scan_dd(b, i3);
    if sn == i3 {
        return None;
    }
    let se = scan_word(b, sn);
    if se == sn {
        return None;
    }
    let i4 = scan_ws(b, se);
    if i4 == se {
        return None;
    }
    let at = "at".as_bytes();
    if (i4 as u128) + (at.len() as u128) > (n as u128) {
        return None;
    }
    if !crate::text::matches_prefix_at(b, at, i4) {
        return None;
    }
    let i5 = scan_ws(b, i4 + at.len());
    if i5 == i4 + at.len() {
        return None;
    }
    let pn = scan_dd(b, i5);
    if pn == i5 {
        return None;
    }
    let pend = scan_word(b, pn);
    if pend == pn {
        return None;
    }
    let ss = "/s".as_bytes();
    if (pend as u128) + (ss.len() as u128) > (n as u128) {
        return None;
    }
    if !crate::text::matches_prefix_at(b, ss, pend) {
        return None;
    }
    let i6 = scan_ws(b, pend + ss.len());
    if i6 == pend + ss.len() {
        return None;
    }
    let eta = "ETA".as_bytes();
    if (i6 as u128) + (eta.len() as u128) > (n as u128) {
        return None;
    }
    if !crate::text::matches_prefix_at(b, eta, i6) {
        return None;
    }
    let i7 = scan_ws(b, i6 + eta.len());
    if i7 == i6 + eta.len() {
        return None;
    }
    let ee = scan_dc(b, i7);
    if ee == i7 {
        return None;
    }
    Some(ProgressSpans { p_lo: i1, p_hi: pe2, sz_lo: i3, sz_hi: se, sp_lo: i5, sp_hi: pend, e_lo: i7, e_hi: ee })
}

/// Match the completion grammar against a line, returning the span of
/// the size token.
fn match_complete(b: &[u8]) -> (r: Option<(usize, usize)>)
    ensures
        match r {
            Some((lo, hi)) => lo <= hi <= b@.len() && complete_match(b@) == Some(
                b@.subrange(lo as int, hi as int),
            ),
            None => complete_match(b@) == None::<Seq<u8>>,
        },
{
    let n = b.len();
    let dl = "[download]".as_bytes();
    let d = match crate::text::find_subslice(b, dl) {
        Some(d) => d,
        None => {
            return None;
        },
    };
    proof {
        crate::text::lemma_find_from(b@, dl@, 0);
    }
    let i0 = d + dl.len();
    let i1 = scan_ws(b, i0);
    if i1 == i0 {
        return None;
    }
    let hundred = "100%".as_bytes();
    if (i1 as u128) + (hundred.len() as u128) > (n as u128) {
        return None;
    }
    if !crate::text::matches_prefix_at(b, hundred, i1) {
        return None;
    }
    let i2 = scan_ws(b, i1 + hundred.len());
    if i2 == i1 + hundred.len() {
        return None;
    }
    let of = "of".as_bytes();
    if (i2 as u128) + (of.len() as u128) > (n as u128) {
        return None;
    }
    if !crate::text::matches_prefix_at(b, of, i2) {
        return None;
    }
    let i3 = scan_ws(b, i2 + of.len());
    if i3 == i2 + of.len() {
        return None;
    }
    let sn = scan_dd(b, i3);
    if sn == i3 {
        return None;
    }
    let se = scan_word(b, sn);
    if se == sn {
        return None;
    }
    let i4 = scan_ws(b, se);
    if i4 == se {
        return None;
    }
    let inw = "in".as_bytes();
    if (i4 as u128) + (inw.len() as u128) > (n as u128) {
        return None;
    }
    if !crate::text::matches_prefix_at(b, inw, i4) {
        return None;
    }
    let i5 = scan_ws(b, i4 + inw.len());
    if i5 == i4 + inw.len() {
        return None;
    }
    let el = scan_dc(b, i5);
    if el == i5 {
        return None;
    }
    let i6 = scan_ws(b, el);
    if i6 == el {
        return None;
    }
    let at = "at".as_bytes();
    if (i6 as u128) + (at.len() as u128) > (n as u128) {
        return None;
    }
    if !crate::text::matches_prefix_at(b, at, i6) {
        return None;
    }
    let i7 = scan_ws(b, i6 + at.len());
    if i7 == i6 + at.len() {
        return None;
    }
    let pn = scan_dd(b, i7);
    if pn == i7 {
        return None;
    }
    let pend = scan_word(b, pn);
    if pend == pn {
        return None;
    }
    let ss = "/s".as_bytes();
    if (pend as u128) + (ss.len() as u128) > (n as u128) {
        return None;
    }
    if !crate::text::matches_prefix_at(b, ss, pend) {
        return None;
    }
    Some((i3, se))
}

/// The percentage token's value in hundredths of a percent.
fn percent_value_bytes(t: &[u8]) -> (r: u32)
    ensures
        r == percent_value(t@),
{
    let n = t.len();
    let mut acc: u128 = 0;
    let mut first_nd: Option<usize> = None;
    let mut i: usize = 0;
    while i < n
        invariant
            i <= n,
            n == t@.len(),
            acc <= u64::MAX as u128,
            acc as nat == num_mantissa(t@.take(i as int)),
            match first_nd {
                Some(d) => d < i && !is_digit_byte(t@[d as int]) && (forall|k: int|
                    0 <= k < d ==> is_digit_byte(#[trigger] t@[k])),
                None => forall|k: int| 0 <= k < i ==> is_digit_byte(#[trigger] t@[k]),
            },
        decreases n - i,
    {
        let c = t[i];
        proof {
            crate::parse::lemma_mantissa_push(t@, i as int);
        }
        if 48 <= c && c <= 57 {
            let nacc: u128 = acc * 10 + (c - 48) as u128;
            if nacc > u64::MAX as u128 {
                proof {
                    crate::parse::lemma_num_mantissa_prefix(t@, i + 1);
                }
                return u32::MAX;
            }
            acc = nacc;
        } else {
            if first_nd.is_none() {
                first_nd = Some(i);
            }
        }
        i += 1;
    }
    proof {
        assert(t@.take(n as int) =~= t@);
    }
    let frac: usize = match first_nd {
        Some(d) => {
            proof {
                crate::text::lemma_seek_exact(t@, d as int, |b: u8| is_digit_byte(b));
            }
            n - d - 1
        },
        None => {
            proof {
                crate::text::lemma_seek_exact(t@, n as int, |b: u8| is_digit_byte(b));
            }
            0
        },
    };
    let v = crate::parse::scale_mantissa(acc, 100, frac);
    if v > u32::MAX as u64 {
        u32::MAX
    } else {
        v as u32
    }
}

/// Bytes transferred so far, from the total and the percentage.
fn compute_downloaded(total: u64, pct: u32) -> (r: u64)
    ensures
        r == downloaded_bytes(total, pct),
{
    proof {
        vstd::arithmetic::mul::lemma_mul_upper_bound(
            total as int,
            u64::MAX as int,
            pct as int,
            u32::MAX as int,
        );
    }
    let d: u128 = (total as u128) * (pct as u128) / 10000;
    if d > u64::MAX as u128 {
        u64::MAX
    } else {
        d as u64
    }
}

/// The byte position right after an ASCII byte of a string is a
/// character boundary.
proof fn lemma_boundary_after_ascii(bytes: Seq<u8>, p: int)
    requires
        vstd::utf8::valid_utf8(bytes),
        0 <= p < bytes.len(),
        bytes[p] < 128,
    ensures
        vstd::utf8::is_char_boundary(bytes, p + 1),
{
    broadcast use vstd::utf8::is_char_boundary_iff_not_is_continuation_byte;
    broadcast use vstd::utf8::is_char_boundary_start_end_of_seq;

    if p + 1 == bytes.len() {
    } else {
        assert(!vstd::utf8::is_continuation_byte(bytes[p]));
        vstd::utf8::is_char_boundary_iff_not_is_continuation_byte(bytes, p);
        assert(vstd::utf8::is_char_boundary(bytes, p));
        vstd::utf8::valid_utf8_split(bytes, p);
        let suf = bytes.subrange(p, bytes.len() as int);
        assert(vstd::utf8::valid_utf8(suf));
        assert(vstd::utf8::is_leading_byte_width_1(suf[0]));
        assert(vstd::utf8::length_of_first_scalar(suf) == 1);
        let rest = vstd::utf8::pop_first_scalar(suf);
        assert(vstd::utf8::valid_utf8(rest));
        assert(rest.len() > 0);
        assert(vstd::utf8::valid_first_scalar(rest));
        assert(!vstd::utf8::is_continuation_byte(rest[0]));
        assert(rest[0] == bytes[p + 1]);
    }
}

/// Own the part of `line` after byte position `p`, which must carry an
/// ASCII character.
fn suffix_after(line: &str, p: usize) -> (r: String)
    requires
        p < line.spec_bytes().len(),
        line.spec_bytes().len() <= usize::MAX,
        line.spec_bytes()[p as int] < 128,
    ensures
        r@ == vstd::utf8::decode_utf8(
            line.spec_bytes().subrange(p + 1, line.spec_bytes().len() as int),
        ),
{
    proof {
        broadcast use vstd::utf8::encode_utf8_valid_utf8;
        broadcast use vstd::utf8::encode_utf8_decode_utf8;

        lemma_boundary_after_ascii(line.spec_bytes(), p as int);
    }
    let byte_len: usize = line.len();
    proof {
        assert(p < byte_len);
    }
    let (_, suffix) = line.split_at(p + 1);
    proof {
        assert(suffix.spec_bytes() == vstd::utf8::encode_utf8(suffix@));
        assert(vstd::utf8::decode_utf8(vstd::utf8::encode_utf8(suffix@)) == suffix@);
    }
    suffix.to_owned()
}

/// Running stdout context of one download: the last total size seen and
/// the filename announced by the latest destination line.
pub struct ProgressTracker {
    pub last_total_bytes: u64,
    pub current_filename: String,
}

impl View for ProgressTracker {
    type V = TrackView;

    open spec fn view(&self) -> TrackView {
        TrackView {
            last_total_bytes: self.last_total_bytes,
            current_filename: self.current_filename@,
        }
    }
}

impl ProgressTracker {
    /// A fresh tracker: nothing seen yet.
    pub fn new() -> (r: Self)
        ensures
            r@ == (TrackView { last_total_bytes: 0u64, current_filename: "Downloading..."@ }),
    {
        ProgressTracker { last_total_bytes: 0, current_filename: "Downloading...".to_owned() }
    }

    /// Process one line of the external tool's stdout: update the
    /// running context and return the event the line calls for, exactly
    /// as `step` describes.
    pub fn handle_line(&mut self, line: &str) -> (r: Option<DownloadProgress>)
        ensures
            final(self)@ == step(old(self)@, line@).0,
            opt_ev_view(r) == step(old(self)@, line@).1,
    {
        let b = line.as_bytes();
        if crate::text::contains_subslice(b, "[download] Destination:".as_bytes()) {
            match crate::text::rfind_byte(b, 47) {
                Some(p) => {
                    let blen: usize = b.len();
                    proof {
                        assert(line.spec_bytes().len() == blen as int);
                        crate::text::lemma_last_index_of(line.spec_bytes(), 47);
                    }
                    let fname = suffix_after(line, p);
                    self.current_filename = fname;
                },
                None => {},
            }
        }
        if crate::text::contains_subslice(b, "[Merger] Merging formats".as_bytes()) {
            let ev = DownloadProgress {
                status: DownloadStatus::Processing,
                percent: 10000,
                speed: 0,
                eta: 0,
                downloaded: self.last_total_bytes,
                total: self.last_total_bytes,
                filename: "Merging video and audio...".to_owned(),
                file_path: None,
            };
            proof {
                assert(ev@ =~~= step(old(self)@, line@).1.unwrap());
                assert(final(self)@ =~~= step(old(self)@, line@).0);
            }
            return Some(ev);
        }
        if crate::text::contains_subslice(b, "[Metadata] Adding metadata".as_bytes()) {
            let ev = DownloadProgress {
                status: DownloadStatus::Processing,
                percent: 10000,
                speed: 0,
                eta: 0,
                downloaded: self.last_total_bytes,
                total: self.last_total_bytes,
                filename: "Adding metadata...".to_owned(),
                file_path: None,
            };
            proof {
                assert(ev@ =~~= step(old(self)@, line@).1.unwrap());
                assert(final(self)@ =~~= step(old(self)@, line@).0);
            }
            return Some(ev);
        }
        if crate::text::contains_subslice(b, "Deleting original file".as_bytes()) {
            let ev = DownloadProgress {
                status: DownloadStatus::Processing,
                percent: 10000,
                speed: 0,
                eta: 0,
                downloaded: self.last_total_bytes,
                total: self.last_total_bytes,
                filename: "Cleaning up temporary files...".to_owned(),
                file_path: None,
            };
            proof {
                assert(ev@ =~~= step(old(self)@, line@).1.unwrap());
                assert(final(self)@ =~~= step(old(self)@, line@).0);
            }
            return Some(ev);
        }
        match match_complete(b) {
            Some((lo, hi)) => {
                let total = crate::parse::parse_size_region(b, lo, hi);
                self.last_total_bytes = total;
                let ev = DownloadProgress {
                    status: DownloadStatus::Downloading,
                    percent: 10000,
                    speed: 0,
                    eta: 0,
                    downloaded: total,
                    total,
                    filename: self.current_filename.clone(),
                    file_path: None,
                };
                proof {
                    assert(ev@ =~~= step(old(self)@, line@).1.unwrap());
                    assert(final(self)@ =~~= step(old(self)@, line@).0);
                }
                return Some(ev);
            },
            None => {},
        }
        match match_progress(b) {
            Some(sp) => {
                let total = crate::parse::parse_size_region(b, sp.sz_lo, sp.sz_hi);
                let speed = crate::parse::parse_size_region(b, sp.sp_lo, sp.sp_hi);
                let eta = crate::parse::parse_eta_region(b, sp.e_lo, sp.e_hi);
                let pct = percent_value_bytes_region(b, sp.p_lo, sp.p_hi);
                let downloaded = compute_downloaded(total, pct);
                self.last_total_bytes = total;
                let ev = DownloadProgress {
                    status: DownloadStatus::Downloading,
                    percent: pct,
                    speed,
                    eta,
                    downloaded,
                    total,
                    filename: self.current_filename.clone(),
                    file_path: None,
                };
                proof {
                    assert(ev@ =~~= step(old(self)@, line@).1.unwrap());
                    assert(final(self)@ =~~= step(old(self)@, line@).0);
                }
                Some(ev)
            },
            None => {
                proof {
                    assert(final(self)@ =~~= step(old(self)@, line@).0);
                }
                None
            },
        }
    }
}

/// The percentage value of a byte region of a line.
fn percent_value_bytes_region(b: &[u8], lo: usize, hi: usize) -> (r: u32)
    requires
        lo <= hi <= b@.len(),
    ensures
        r == percent_value(b@.subrange(lo as int, hi as int)),
{
    percent_value_bytes(&b[lo..hi])
}

} // verus!
