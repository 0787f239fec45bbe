//! The window's view of the daemon: which request to make, and what to make of
//! the reply.

use vstd::prelude::*;
use crate::clip::{clip_views, Clip};
use crate::protocol::{Request, Response, StatusReport};
use crate::seqs::{lemma_filter_step, lemma_sweep_ends};
use crate::text::{
    append_chars, chars_of, decimal, digits, is_blank, lemma_trim_blank, owned, signed_chars,
    string_of, trim_chars, unsigned_chars,
};

verus! {

/// How many clips the window asks for.
pub const PAGE_SIZE: usize = 200;

/// A client for the local daemon: one request, one fresh connection, so that the
/// window recovers by itself when the daemon is restarted.
#[derive(Debug)]
pub struct Engine {
    socket: Vec<u8>,
}

/// What is wrong with a reply.
#[derive(Debug)]
pub enum ClientError {
    /// The daemon refused, for the given reason.
    Refused(String),
    /// The reply does not answer the request.
    Unexpected(Response),
}

impl Engine {
    /// The socket the daemon listens on.
    pub closed spec fn socket(&self) -> Seq<u8> {
        self.socket@
    }

    pub fn new(socket: Vec<u8>) -> (res: Self)
        ensures
            res.socket() == socket@,
    {
        Engine { socket }
    }

    pub fn socket_path(&self) -> (res: &Vec<u8>)
        ensures
            res@ == self.socket(),
    {
        &self.socket
    }

    /// The request for recent clips, or for search results when `query` is
    /// non-blank.
    ///
    /// One method keeps the window from having to decide which request to send as
    /// the user types. Read the reply with [`read_clips`].
    pub fn clips(&self, query: &str, limit: usize) -> (res: Request)
        ensures
            if is_blank(query@) {
                res == (Request::List { limit, offset: 0, kind: None })
            } else {
                res is Search && res->Search_query@ == query@ && res->Search_limit == limit
            },
    {
        let trimmed = trim_chars(&chars_of(query));
        proof {
            lemma_trim_blank(query@);
        }
        if trimmed.len() == 0 {
            Request::List { limit, offset: 0, kind: None }
        } else {
            Request::Search { query: owned(query), limit }
        }
    }

    /// The request for the daemon's status. Read the reply with [`read_status`].
    pub fn status(&self) -> (res: Request)
        ensures
            res == Request::Status,
    {
        Request::Status
    }

    /// The request to copy a clip. Read the reply with [`read_done`].
    pub fn copy(&self, id: i64) -> (res: Request)
        ensures
            res == (Request::Copy { id }),
    {
        Request::Copy { id }
    }

    /// The request to pin or unpin a clip. Read the reply with [`read_done`].
    pub fn set_pinned(&self, id: i64, pinned: bool) -> (res: Request)
        ensures
            res == (Request::Pin { id, pinned }),
    {
        Request::Pin { id, pinned }
    }

    /// The request to delete a clip. Read the reply with [`read_done`].
    pub fn delete(&self, id: i64) -> (res: Request)
        ensures
            res == (Request::Delete { id }),
    {
        Request::Delete { id }
    }
}

/// The clips in a reply.
pub fn read_clips(response: Response) -> (res: Result<Vec<Clip>, ClientError>)
    ensures
        match response {
            Response::Clips { clips } => res == Ok::<Vec<Clip>, ClientError>(clips),
            Response::Error { message } => res is Err && res->Err_0 == ClientError::Refused(
                message,
            ),
            _ => res is Err && res->Err_0 == ClientError::Unexpected(response),
        },
{
    match response {
        Response::Clips { clips } => Ok(clips),
        Response::Error { message } => Err(ClientError::Refused(message)),
        other => Err(ClientError::Unexpected(other)),
    }
}

/// The status in a reply.
pub fn read_status(response: Response) -> (res: Result<StatusReport, ClientError>)
    ensures
        match response {
            Response::Status(report) => res == Ok::<StatusReport, ClientError>(*report),
            Response::Error { message } => res is Err && res->Err_0 == ClientError::Refused(
                message,
            ),
            _ => res is Err && res->Err_0 == ClientError::Unexpected(response),
        },
{
    match response {
        Response::Status(report) => Ok(*report),
        Response::Error { message } => Err(ClientError::Refused(message)),
        other => Err(ClientError::Unexpected(other)),
    }
}

/// Treats anything that is not an error as success.
pub fn read_done(response: Response) -> (res: Result<(), ClientError>)
    ensures
        match response {
            Response::Error { message } => res is Err && res->Err_0 == ClientError::Refused(
                message,
            ),
            _ => res is Ok,
        },
{
    match response {
        Response::Error { message } => Err(ClientError::Refused(message)),
        _ => Ok(()),
    }
}

/// The status line below a list of clips.
pub open spec fn list_summary(clips: Seq<crate::clip::ClipView>) -> Seq<char> {
    if clips.len() == 0 {
        "No clips match."@
    } else {
        digits(clips.len()) + " clips \u{b7} "@ + digits(
            clips.filter(|c: crate::clip::ClipView| c.pinned).len(),
        ) + " pinned"@
    }
}

/// The status line below a list of clips.
pub fn summarize(clips: &Vec<Clip>) -> (res: String)
    ensures
        res@ == list_summary(clip_views(clips@)),
{
    let ghost all = clip_views(clips@);
    let ghost keep = |c: crate::clip::ClipView| c.pinned;
    assert(all.len() == clips@.len());
    if clips.len() == 0 {
        return owned("No clips match.");
    }
    let mut pinned: usize = 0;
    proof {
        lemma_sweep_ends(all, keep);
    }
    for i in 0..clips.len()
        invariant
            all == clip_views(clips@),
            keep == (|c: crate::clip::ClipView| c.pinned),
            pinned == all.take(i as int).filter(keep).len(),
            pinned <= i,
    {
        proof {
            lemma_filter_step(all, keep, i as int);
            assert(all[i as int] == clips@[i as int]@);
        }
        if clips[i].pinned {
            pinned += 1;
        }
    }
    assert(all.take(all.len() as int) == all);
    let mut v = unsigned_chars(clips.len() as u64);
    append_chars(&mut v, &chars_of(" clips \u{b7} "));
    append_chars(&mut v, &unsigned_chars(pinned as u64));
    append_chars(&mut v, &chars_of(" pinned"));
    string_of(&v)
}

/// The window title, with the version and the size of the history.
pub fn window_title(report: &StatusReport) -> (res: String)
    ensures
        res@ == "Pasteport "@ + report@.version + " \u{2014} "@ + decimal(
            report@.stats.total_clips as int,
        ) + " clips"@,
{
    let mut v = chars_of("Pasteport ");
    append_chars(&mut v, &chars_of(report.version.as_str()));
    append_chars(&mut v, &chars_of(" \u{2014} "));
    append_chars(&mut v, &signed_chars(report.stats.total_clips));
    append_chars(&mut v, &chars_of(" clips"));
    string_of(&v)
}

/// A key that the window reacts to.
#[derive(Debug, Clone, Copy, PartialEq, Eq, Structural)]
pub enum Key {
    Escape,
    P,
    Delete,
    Other,
}

/// What a key does.
#[derive(Debug, Clone, Copy, PartialEq, Eq, Structural)]
pub enum KeyAction {
    Close,
    /// Pin the selected clip, if one is selected.
    Pin(Option<i64>),
    /// Delete the selected clip, if one is selected.
    Delete(Option<i64>),
    /// Leave the key to whatever has the focus.
    Pass,
}

/// Escape closes, Ctrl+P pins, Delete removes. Not backspace: binding a
/// destructive action to the key people press to fix a typo is asking for an
/// accident.
pub fn key_action(key: Key, control: bool, selected: Option<i64>) -> (res: KeyAction)
    ensures
        res == match key {
            Key::Escape => KeyAction::Close,
            Key::P => if control {
                KeyAction::Pin(selected)
            } else {
                KeyAction::Pass
            },
            Key::Delete => KeyAction::Delete(selected),
            Key::Other => KeyAction::Pass,
        },
{
    match key {
        Key::Escape => KeyAction::Close,
        Key::P => if control {
            KeyAction::Pin(selected)
        } else {
            KeyAction::Pass
        },
        Key::Delete => KeyAction::Delete(selected),
        Key::Other => KeyAction::Pass,
    }
}

} // verus!
