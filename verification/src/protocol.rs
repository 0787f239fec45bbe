//! The local control protocol: what a client can ask, and what it is told.

use vstd::prelude::*;
use crate::clip::{clip_views, Clip, ClipKind, ClipView};
use crate::store::{pinboard_views, Pinboard, PinboardView, Stats};
use crate::text::owned;
use crate::view::opt_text;

verus! {

/// A request from a client.
#[derive(Debug, Clone, PartialEq)]
pub enum Request {
    /// Liveness check.
    Ping,
    /// Version, backend, and history statistics.
    Status,
    /// Recent clips, newest first, pinned floated to the top.
    List { limit: usize, offset: usize, kind: Option<ClipKind> },
    Search { query: String, limit: usize },
    /// One clip's metadata.
    Get { id: i64 },
    /// One clip's raw payload, base64 encoded. For images.
    GetBytes { id: i64 },
    /// Put a stored clip back on the system clipboard and bump its recency.
    Copy { id: i64 },
    Pin { id: i64, pinned: bool },
    Delete { id: i64 },
    Clear { include_pinned: bool },
    /// Read the clipboard right now and store whatever is there.
    CaptureNow,
    /// Apply the retention policy immediately.
    Prune,
    Pinboards,
    PinboardCreate { name: String },
    PinboardDelete { name: String },
    PinboardAdd { name: String, id: i64 },
    PinboardRemove { name: String, id: i64 },
    PinboardClips { name: String, limit: usize },
    /// Ask the daemon to exit cleanly.
    Shutdown,
}

/// The page size where a client names none.
pub fn default_limit() -> (res: usize)
    ensures
        res == 50,
{
    50
}

/// A reply. Exactly one per request, on one line.
#[derive(Debug, PartialEq)]
pub enum Response {
    /// Carried out; there is nothing to add.
    Done,
    Pong { version: String },
    Status(Box<StatusReport>),
    Clips { clips: Vec<Clip> },
    Clip { clip: Box<Clip> },
    /// Base64-encoded payload. `None` when the clip has no binary body.
    Bytes { base64: Option<String> },
    Pinboards { pinboards: Vec<Pinboard> },
    /// Number of rows affected, for `Clear` and `Prune`.
    Count { count: usize },
    /// The request was understood but could not be carried out.
    Error { message: String },
}

/// The content of a [`Response`].
pub enum ResponseView {
    /// Carried out; there is nothing to add.
    Done,
    Pong { version: Seq<char> },
    Status(StatusView),
    Clips { clips: Seq<ClipView> },
    Clip { clip: ClipView },
    Bytes { base64: Option<Seq<char>> },
    Pinboards { pinboards: Seq<PinboardView> },
    Count { count: usize },
    Error { message: Seq<char> },
}

impl View for Response {
    type V = ResponseView;

    open spec fn view(&self) -> ResponseView {
        match self {
            Response::Done => ResponseView::Done,
            Response::Pong { version } => ResponseView::Pong { version: version@ },
            Response::Status(report) => ResponseView::Status((**report)@),
            Response::Clips { clips } => ResponseView::Clips { clips: clip_views(clips@) },
            Response::Clip { clip } => ResponseView::Clip { clip: (**clip)@ },
            Response::Bytes { base64 } => ResponseView::Bytes { base64: opt_text(*base64) },
            Response::Pinboards { pinboards } => ResponseView::Pinboards {
                pinboards: pinboard_views(pinboards@),
            },
            Response::Count { count } => ResponseView::Count { count: *count },
            Response::Error { message } => ResponseView::Error { message: message@ },
        }
    }
}

impl Response {
    pub fn error(message: &str) -> (res: Self)
        ensures
            res@ == (ResponseView::Error { message: message@ }),
    {
        Response::Error { message: owned(message) }
    }

    pub fn is_error(&self) -> (res: bool)
        ensures
            res == (self@ is Error),
    {
        matches!(self, Response::Error { .. })
    }
}

/// Everything `pasteport status` prints.
#[derive(Debug, PartialEq)]
pub struct StatusReport {
    pub version: String,
    /// Clipboard backend in use, e.g. `macos-nspasteboard`.
    pub backend: String,
    pub uptime_secs: u64,
    pub poll_interval_ms: u64,
    pub stats: Stats,
    pub data_dir: String,
}

/// The content of a [`StatusReport`].
pub struct StatusView {
    pub version: Seq<char>,
    pub backend: Seq<char>,
    pub uptime_secs: u64,
    pub poll_interval_ms: u64,
    pub stats: Stats,
    pub data_dir: Seq<char>,
}

impl View for StatusReport {
    type V = StatusView;

    open spec fn view(&self) -> StatusView {
        StatusView {
            version: self.version@,
            backend: self.backend@,
            uptime_secs: self.uptime_secs,
            poll_interval_ms: self.poll_interval_ms,
            stats: self.stats,
            data_dir: self.data_dir@,
        }
    }
}

/// Convenience for clients: pull the clips out of a `Clips` response.
pub fn clips_of(response: &Response) -> (res: Option<&Vec<Clip>>)
    ensures
        match res {
            Some(clips) => response@ == (ResponseView::Clips { clips: clip_views(clips@) }),
            None => !(response@ is Clips),
        },
{
    match response {
        Response::Clips { clips } => Some(clips),
        _ => None,
    }
}

} // verus!
