//! Classification of the external tool's stderr output: spotting the
//! lines that signal failure, condensing them into a bounded diagnostic
//! summary, building the terminal error label, and the network
//! diagnosis report.

use vstd::prelude::*;

verus! {

use vstd::string::StringExecFns;
use crate::select::strings_view;
use crate::strutil::{dec_str, int_str};
use crate::text::contains_str;

/// A stderr line that signals a problem: a case-sensitive substring
/// match against the fixed keyword set.
pub open spec fn error_line_spec(line: Seq<char>) -> bool {
    ||| contains_str(line, "ERROR"@)
    ||| contains_str(line, "error"@)
    ||| contains_str(line, "failed"@)
    ||| contains_str(line, "SSL"@)
    ||| contains_str(line, "certificate"@)
    ||| contains_str(line, "timeout"@)
}

/// Decide whether a stderr line signals a problem.
pub fn is_error_line(line: &str) -> (r: bool)
    ensures
        r == error_line_spec(line@),
{
    crate::text::str_contains(line, "ERROR") || crate::text::str_contains(line, "error")
        || crate::text::str_contains(line, "failed") || crate::text::str_contains(line, "SSL")
        || crate::text::str_contains(line, "certificate") || crate::text::str_contains(
        line,
        "timeout",
    )
}

/// The subsequence of lines that signal a problem, in order.
pub open spec fn error_hits(lines: Seq<Seq<char>>) -> Seq<Seq<char>>
    decreases lines.len(),
{
    if lines.len() == 0 {
        Seq::empty()
    } else {
        error_hits(lines.drop_last()) + if error_line_spec(lines.last()) {
            seq![lines.last()]
        } else {
            Seq::empty()
        }
    }
}

/// The lines rendered as an indented bullet list, one per line.
pub open spec fn bullet_list(hits: Seq<Seq<char>>) -> Seq<char>
    decreases hits.len(),
{
    if hits.len() == 0 {
        Seq::empty()
    } else if hits.len() == 1 {
        "  - "@ + hits[0]
    } else {
        bullet_list(hits.drop_last()) + "\n"@ + "  - "@ + hits.last()
    }
}

/// The bounded diagnostic summary: every flagged line when there are at
/// most ten, else the first ten under a count disclaimer.
pub open spec fn summary_spec(lines: Seq<Seq<char>>) -> Seq<char> {
    let hits = error_hits(lines);
    if hits.len() > 10 {
        "yt-dlp reported "@ + dec_str(hits.len()) + " errors, showing the first 10:\n"@
            + bullet_list(hits.take(10))
    } else {
        "yt-dlp errors:\n"@ + bullet_list(hits)
    }
}

/// The exit code as the process API reports it.
pub open spec fn code_str(code: Option<i32>) -> Seq<char> {
    match code {
        Some(c) => "Some("@ + int_str(c as int) + ")"@,
        None => "None"@,
    }
}

/// The label of the terminal error event: the exit code, and the
/// diagnostic summary when any stderr line was flagged.
pub open spec fn error_label_spec(code: Option<i32>, lines: Seq<Seq<char>>) -> Seq<char> {
    let base = "Download failed with exit code: "@ + code_str(code);
    if error_hits(lines).len() == 0 {
        base
    } else {
        base + "\nError details: "@ + summary_spec(lines)
    }
}

/// Collect the flagged lines of a stderr transcript, in order.
pub fn collect_error_lines(lines: &Vec<String>) -> (r: Vec<String>)
    ensures
        strings_view(r@) == error_hits(strings_view(lines@)),
{
    let ghost src = strings_view(lines@);
    let n = lines.len();
    let mut hits: Vec<String> = Vec::new();
    let mut i: usize = 0;
    while i < n
        invariant
            i <= n,
            n == lines@.len(),
            src == strings_view(lines@),
            strings_view(hits@) == error_hits(src.take(i as int)),
        decreases n - i,
    {
        proof {
            assert(src.take(i + 1).drop_last() =~= src.take(i as int));
            assert(src.take(i + 1).last() == src[i as int]);
            assert(src[i as int] == lines@[i as int]@);
        }
        if is_error_line(lines[i].as_str()) {
            hits.push(lines[i].clone());
        }
        proof {
            assert(strings_view(hits@) =~~= error_hits(src.take(i + 1)));
        }
        i += 1;
    }
    proof {
        assert(src.take(n as int) =~= src);
    }
    hits
}

/// Render at most `limit` of the flagged lines as a bullet list.
fn render_bullets(hits: &Vec<String>, limit: usize) -> (r: String)
    requires
        limit <= hits@.len(),
    ensures
        r@ == bullet_list(strings_view(hits@).take(limit as int)),
{
    let ghost src = strings_view(hits@);
    let mut acc = String::new();
    let mut i: usize = 0;
    while i < limit
        invariant
            i <= limit <= hits@.len(),
            src == strings_view(hits@),
            acc@ == bullet_list(src.take(i as int)),
        decreases limit - i,
    {
        proof {
            assert(src.take(i + 1).drop_last() =~= src.take(i as int));
            assert(src.take(i + 1).last() == src[i as int]);
            assert(src[i as int] == hits@[i as int]@);
        }
        if i > 0 {
            acc.append("\n");
        }
        acc.append("  - ");
        acc.append(hits[i].as_str());
        proof {
            assert(acc@ =~= bullet_list(src.take(i + 1)));
        }
        i += 1;
    }
    acc
}

/// Build the bounded diagnostic summary of a stderr transcript.
pub fn build_error_summary(lines: &Vec<String>) -> (r: String)
    ensures
        r@ == summary_spec(strings_view(lines@)),
{
    let hits = collect_error_lines(lines);
    let n = hits.len();
    if n > 10 {
        let mut acc: String = "yt-dlp reported ".to_owned();
        acc.append(crate::strutil::u64_to_string(n as u64).as_str());
        acc.append(" errors, showing the first 10:\n");
        let bullets = render_bullets(&hits, 10);
        acc.append(bullets.as_str());
        proof {
            assert(acc@ =~= summary_spec(strings_view(lines@)));
        }
        acc
    } else {
        let mut acc: String = "yt-dlp errors:\n".to_owned();
        let bullets = render_bullets(&hits, n);
        proof {
            assert(strings_view(hits@).take(n as int) =~= strings_view(hits@));
        }
        acc.append(bullets.as_str());
        proof {
            assert(acc@ =~= summary_spec(strings_view(lines@)));
        }
        acc
    }
}

/// Build the label of the terminal error event.
pub fn build_error_label(code: Option<i32>, lines: &Vec<String>) -> (r: String)
    ensures
        r@ == error_label_spec(code, strings_view(lines@)),
{
    let mut acc: String = "Download failed with exit code: ".to_owned();
    match code {
        Some(c) => {
            acc.append("Some(");
            acc.append(crate::strutil::i64_to_string(c as i64).as_str());
            acc.append(")");
        },
        None => {
            acc.append("None");
        },
    }
    proof {
        assert(acc@ =~= "Download failed with exit code: "@ + code_str(code));
    }
    let hits = collect_error_lines(lines);
    if hits.len() > 0 {
        acc.append("\nError details: ");
        let summary = build_error_summary(lines);
        acc.append(summary.as_str());
        proof {
            assert(acc@ =~= error_label_spec(code, strings_view(lines@)));
        }
    } else {
        proof {
            assert(strings_view(hits@).len() == 0);
        }
    }
    acc
}

/// The remediation report derived from a verbose simulate-only run:
/// keyed on SSL and timeout indications in the captured stderr.
pub open spec fn diagnosis_spec(stderr: Seq<char>) -> Seq<char> {
    let ssl = contains_str(stderr, "SSL"@);
    let to = contains_str(stderr, "timeout"@) || contains_str(stderr, "Timeout"@);
    if !ssl && !to {
        "Network connection looks normal; likely a temporary problem, please retry"@
    } else {
        (if ssl {
            "SSL connection problem detected\nSuggestions:\n- Check network stability\n- Try a lower resolution format\n- Retry later\n"@
        } else {
            Seq::empty()
        }) + (if to {
            "Network timeout detected\nSuggestions:\n- Check network speed\n- Retry later\n"@
        } else {
            Seq::empty()
        })
    }
}

/// Turn the captured stderr of a simulate-only run into a remediation
/// report.
pub fn diagnose_from_stderr(stderr: &str) -> (r: String)
    ensures
        r@ == diagnosis_spec(stderr@),
{
    let ssl = crate::text::str_contains(stderr, "SSL");
    let to = crate::text::str_contains(stderr, "timeout") || crate::text::str_contains(
        stderr,
        "Timeout",
    );
    if !ssl && !to {
        return
        "Network connection looks normal; likely a temporary problem, please retry".to_owned();
    }
    let mut acc = String::new();
    if ssl {
        acc.append(
            "SSL connection problem detected\nSuggestions:\n- Check network stability\n- Try a lower resolution format\n- Retry later\n",
        );
    }
    if to {
        acc.append(
            "Network timeout detected\nSuggestions:\n- Check network speed\n- Retry later\n",
        );
    }
    proof {
        assert(acc@ =~= diagnosis_spec(stderr@));
    }
    acc
}

} // verus!
