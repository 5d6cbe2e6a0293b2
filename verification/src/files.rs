//! Choosing the produced media file after a successful download: among
//! the entries of the destination directory, the most recently modified
//! media file that is not a thumbnail artifact.

use vstd::prelude::*;

verus! {

use crate::text::{contains_str, eq_ignore_ascii_case};
use crate::types::opt_str_view;

/// One directory entry, as the caller read it from the destination
/// directory: `modified` is a monotone timestamp (for instance
/// milliseconds since the epoch).
#[derive(Clone, Debug)]
pub struct FileEntry {
    pub path: String,
    pub name: String,
    pub extension: String,
    pub modified: u64,
    pub is_file: bool,
}

/// Mathematical image of a `FileEntry`.
#[verifier::ext_equal]
pub ghost struct FileEntryView {
    pub path: Seq<char>,
    pub name: Seq<char>,
    pub extension: Seq<char>,
    pub modified: u64,
    pub is_file: bool,
}

impl View for FileEntry {
    type V = FileEntryView;

    open spec fn view(&self) -> FileEntryView {
        FileEntryView {
            path: self.path@,
            name: self.name@,
            extension: self.extension@,
            modified: self.modified,
            is_file: self.is_file,
        }
    }
}

/// Views of an entry list.
pub open spec fn entry_views(s: Seq<FileEntry>) -> Seq<FileEntryView> {
    s.map_values(|e: FileEntry| e@)
}

/// A known media container extension, compared without regard to ASCII
/// case.
pub open spec fn media_extension(ext: Seq<char>) -> bool {
    ||| eq_ignore_ascii_case(ext, "mp4"@)
    ||| eq_ignore_ascii_case(ext, "mkv"@)
    ||| eq_ignore_ascii_case(ext, "webm"@)
    ||| eq_ignore_ascii_case(ext, "avi"@)
    ||| eq_ignore_ascii_case(ext, "mov"@)
    ||| eq_ignore_ascii_case(ext, "m4a"@)
    ||| eq_ignore_ascii_case(ext, "mp3"@)
}

/// A thumbnail artifact, recognized by its name.
pub open spec fn thumbnail_name(name: Seq<char>) -> bool {
    ||| contains_str(name, "thumbnail"@)
    ||| contains_str(name, "thumb"@)
    ||| contains_str(name, ".jpg"@)
}

/// An entry that can be the produced file: a plain file in a media
/// container that is not a thumbnail artifact.
pub open spec fn candidate(e: FileEntryView) -> bool {
    e.is_file && media_extension(e.extension) && !thumbnail_name(e.name)
}

/// Index of the chosen entry: among candidates, the one modified last;
/// on a tie, the earliest in the list.
pub open spec fn best_media_idx(s: Seq<FileEntryView>) -> Option<int>
    decreases s.len(),
{
    if s.len() == 0 {
        None
    } else {
        let rest = best_media_idx(s.drop_last());
        if candidate(s.last()) {
            match rest {
                None => Some(s.len() - 1),
                Some(k) => if s.last().modified > s[k].modified {
                    Some(s.len() - 1)
                } else {
                    Some(k)
                },
            }
        } else {
            rest
        }
    }
}

/// Decide whether an entry can be the produced file.
fn is_candidate(e: &FileEntry) -> (r: bool)
    ensures
        r == candidate(e@),
{
    e.is_file && (crate::text::str_eq_ignore_ascii_case(e.extension.as_str(), "mp4")
        || crate::text::str_eq_ignore_ascii_case(e.extension.as_str(), "mkv")
        || crate::text::str_eq_ignore_ascii_case(e.extension.as_str(), "webm")
        || crate::text::str_eq_ignore_ascii_case(e.extension.as_str(), "avi")
        || crate::text::str_eq_ignore_ascii_case(e.extension.as_str(), "mov")
        || crate::text::str_eq_ignore_ascii_case(e.extension.as_str(), "m4a")
        || crate::text::str_eq_ignore_ascii_case(e.extension.as_str(), "mp3")) && !(
    crate::text::str_contains(e.name.as_str(), "thumbnail") || crate::text::str_contains(
        e.name.as_str(),
        "thumb",
    ) || crate::text::str_contains(e.name.as_str(), ".jpg"))
}

/// Pick the produced media file among the destination directory's
/// entries: the path of the most recently modified candidate, or
/// nothing when no entry qualifies.
pub fn pick_downloaded_file(entries: &Vec<FileEntry>) -> (r: Option<String>)
    ensures
        opt_str_view(r) == match best_media_idx(entry_views(entries@)) {
            Some(i) => Some(entry_views(entries@)[i].path),
            None => None::<Seq<char>>,
        },
{
    let ghost s = entry_views(entries@);
    let n = entries.len();
    let mut best: Option<usize> = None;
    let mut best_time: u64 = 0;
    let mut i: usize = 0;
    while i < n
        invariant
            i <= n,
            n == entries@.len(),
            s == entry_views(entries@),
            match best {
                Some(b) => b < i && best_media_idx(s.take(i as int)) == Some(b as int) && best_time
                    == s[b as int].modified,
                None => best_media_idx(s.take(i as int)) == None::<int>,
            },
        decreases n - i,
    {
        let e = &entries[i];
        proof {
            assert(s[i as int] == entries@[i as int]@);
            assert(s.take(i + 1).drop_last() =~= s.take(i as int));
            assert(s.take(i + 1).last() == s[i as int]);
            assert(forall|k: int| 0 <= k < i ==> s.take(i + 1)[k] == s[k]);
        }
        if is_candidate(e) {
            match best {
                Some(_) => {
                    if e.modified > best_time {
                        best = Some(i);
                        best_time = e.modified;
                    }
                },
                None => {
                    best = Some(i);
                    best_time = e.modified;
                },
            }
        }
        i += 1;
    }
    proof {
        assert(s.take(n as int) =~= s);
    }
    match best {
        Some(b) => Some(entries[b].path.clone()),
        None => None,
    }
}

} // verus!
