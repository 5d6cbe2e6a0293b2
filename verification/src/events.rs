//! The per-download event sequence: the fixed first event, the two
//! terminal event constructors, and the append-only log whose invariant
//! guarantees exactly one terminal event, in final position.

use vstd::prelude::*;

verus! {

use crate::errors::error_label_spec;
use crate::select::strings_view;
use crate::types::{is_terminal, opt_str_view, DownloadProgress, DownloadStatus, ProgressView};

/// The event pushed before the first line of output arrives, so that an
/// observer has something to render.
pub open spec fn initial_event_spec() -> ProgressView {
    ProgressView {
        status: DownloadStatus::Downloading,
        percent: 0,
        speed: 0,
        eta: 0,
        downloaded: 0,
        total: 0,
        filename: "Initializing download..."@,
        file_path: None,
    }
}

/// Build the initial `downloading` event at zero percent.
pub fn initial_event() -> (r: DownloadProgress)
    ensures
        r@ == initial_event_spec(),
        !is_terminal(r.status),
{
    let r = DownloadProgress {
        status: DownloadStatus::Downloading,
        percent: 0,
        speed: 0,
        eta: 0,
        downloaded: 0,
        total: 0,
        filename: "Initializing download...".to_owned(),
        file_path: None,
    };
    proof {
        assert(r@ =~~= initial_event_spec());
    }
    r
}

/// The placeholder size reported when the produced file cannot be
/// found or measured after a successful exit.
pub open spec fn placeholder_size() -> u64 {
    100000000
}

/// The terminal success event: the probed size when one is available,
/// the placeholder otherwise, and the resolved path when one was found.
pub open spec fn finished_event_spec(
    file_path: Option<Seq<char>>,
    probed_size: Option<u64>,
) -> ProgressView {
    let size = match probed_size {
        Some(s) => s,
        None => placeholder_size(),
    };
    ProgressView {
        status: DownloadStatus::Finished,
        percent: 10000,
        speed: 0,
        eta: 0,
        downloaded: size,
        total: size,
        filename: "Download completed!"@,
        file_path: file_path,
    }
}

/// Build the terminal success event.
pub fn finished_event(file_path: Option<String>, probed_size: Option<u64>) -> (r: DownloadProgress)
    ensures
        r@ == finished_event_spec(opt_str_view(file_path), probed_size),
        is_terminal(r.status),
{
    let size: u64 = match probed_size {
        Some(s) => s,
        None => 100000000,
    };
    let r = DownloadProgress {
        status: DownloadStatus::Finished,
        percent: 10000,
        speed: 0,
        eta: 0,
        downloaded: size,
        total: size,
        filename: "Download completed!".to_owned(),
        file_path,
    };
    proof {
        assert(r@ =~~= finished_event_spec(opt_str_view(file_path), probed_size));
    }
    r
}

/// The terminal failure event: zeroed quantities, the exit code and
/// diagnostic summary in the label.
pub open spec fn error_event_spec(code: Option<i32>, stderr_lines: Seq<Seq<char>>) -> ProgressView {
    ProgressView {
        status: DownloadStatus::Error,
        percent: 0,
        speed: 0,
        eta: 0,
        downloaded: 0,
        total: 0,
        filename: error_label_spec(code, stderr_lines),
        file_path: None,
    }
}

/// Build the terminal failure event from the exit code and the
/// captured stderr lines.
pub fn error_event(code: Option<i32>, stderr_lines: &Vec<String>) -> (r: DownloadProgress)
    ensures
        r@ == error_event_spec(code, strings_view(stderr_lines@)),
        is_terminal(r.status),
{
    let label = crate::errors::build_error_label(code, stderr_lines);
    let r = DownloadProgress {
        status: DownloadStatus::Error,
        percent: 0,
        speed: 0,
        eta: 0,
        downloaded: 0,
        total: 0,
        filename: label,
        file_path: None,
    };
    proof {
        assert(r@ =~~= error_event_spec(code, strings_view(stderr_lines@)));
    }
    r
}

/// The ordered sequence of events emitted for one download request.
///
/// While the log is open only non-terminal events can enter; closing it
/// appends one terminal event, after which nothing can enter. The
/// well-formedness invariant ties the two: an event is terminal exactly
/// when it is the last event of a closed log.
pub struct EventLog {
    pub events: Vec<DownloadProgress>,
    pub closed: bool,
}

impl EventLog {
    /// The log's invariant: closed means non-empty with a terminal
    /// event at the end, and terminal events stand nowhere else.
    pub open spec fn wf(&self) -> bool {
        &&& (self.closed ==> self.events@.len() > 0)
        &&& forall|i: int|
            0 <= i < self.events@.len() ==> (is_terminal(#[trigger] self.events@[i].status) <==> (
            self.closed && i == self.events@.len() - 1))
    }

    /// An empty, open log.
    pub fn new() -> (r: Self)
        ensures
            r.wf(),
            !r.closed,
            r.events@.len() == 0,
    {
        EventLog { events: Vec::new(), closed: false }
    }

    /// Record one non-terminal event.
    pub fn record(&mut self, e: DownloadProgress)
        requires
            old(self).wf(),
            !old(self).closed,
            !is_terminal(e.status),
        ensures
            final(self).wf(),
            !final(self).closed,
            final(self).events@ == old(self).events@.push(e),
    {
        self.events.push(e);
    }

    /// Record the one terminal event and close the log.
    pub fn close(&mut self, e: DownloadProgress)
        requires
            old(self).wf(),
            !old(self).closed,
            is_terminal(e.status),
        ensures
            final(self).wf(),
            final(self).closed,
            final(self).events@ == old(self).events@.push(e),
    {
        self.events.push(e);
        self.closed = true;
    }
}

/// Identities for download tasks: a counter handing out one fresh
/// number per request, so that two downloads of the same URL stay
/// distinguishable.
pub struct TaskIdAllocator {
    pub next_id: u64,
}

impl TaskIdAllocator {
    pub fn new() -> (r: Self)
        ensures
            r.next_id == 0,
    {
        TaskIdAllocator { next_id: 0 }
    }

    /// Hand out the next identifier; every identifier is handed out at
    /// most once.
    pub fn fresh(&mut self) -> (r: u64)
        requires
            old(self).next_id < u64::MAX,
        ensures
            r == old(self).next_id,
            final(self).next_id == old(self).next_id + 1,
    {
        let id = self.next_id;
        self.next_id = self.next_id + 1;
        id
    }
}

/// Exactly one terminal event per closed log, and it stands last: the
/// final event of a closed log is terminal, and no other event is.
pub proof fn lemma_exactly_one_terminal(log: EventLog)
    requires
        log.wf(),
        log.closed,
    ensures
        log.events@.len() > 0,
        is_terminal(log.events@[log.events@.len() - 1].status),
        forall|i: int| 0 <= i < log.events@.len() - 1 ==> !is_terminal(log.events@[i].status),
{
    assert(is_terminal(log.events@[log.events@.len() - 1].status));
    assert forall|i: int| 0 <= i < log.events@.len() - 1 implies !is_terminal(
        log.events@[i].status,
    ) by {
        assert(is_terminal(log.events@[i].status) <==> (log.closed && i == log.events@.len() - 1));
    }
}

/// An open log holds no terminal event at all: the terminal event
/// arrives exactly once, when the log is closed.
pub proof fn lemma_no_terminal_while_open(log: EventLog)
    requires
        log.wf(),
        !log.closed,
    ensures
        forall|i: int| 0 <= i < log.events@.len() ==> !is_terminal(log.events@[i].status),
{
    assert forall|i: int| 0 <= i < log.events@.len() implies !is_terminal(
        log.events@[i].status,
    ) by {
        assert(is_terminal(log.events@[i].status) <==> (log.closed && i == log.events@.len() - 1));
    }
}

} // verus!
