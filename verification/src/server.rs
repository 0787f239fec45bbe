//! The control socket's rules: one message per line in each direction.
//!
//! Newline-delimited JSON: the only clients are on the same machine, and a
//! developer can drive it by hand while debugging. Sockets and the JSON itself
//! are left to the caller.

use vstd::prelude::*;
use crate::protocol::{Response, ResponseView};
use crate::text::{
    append_chars, chars_of, lemma_segments_append, lemma_segments_single, segments, string_of,
};

verus! {

/// Refuse protocol lines longer than this. Clipboard payloads travel in
/// responses, not requests, so requests are always small.
pub const MAX_REQUEST_BYTES: usize = 1_048_576;

/// Cap on simultaneous client connections.
///
/// A handful of front ends plus a command-line invocation is the real workload;
/// anything beyond this is a runaway client, and refusing is better than spawning
/// threads without bound.
pub const MAX_CONNECTIONS: usize = 64;

/// Whether another client is let in.
pub fn admits(live: usize) -> (res: bool)
    ensures
        res == (live < MAX_CONNECTIONS),
{
    live < MAX_CONNECTIONS
}

/// The line sent to a client that is not let in.
pub fn refusal_line() -> (res: &'static str)
    ensures
        res@ == "{\"result\":\"error\",\"message\":\"too many connections\"}\n"@,
{
    "{\"result\":\"error\",\"message\":\"too many connections\"}\n"
}

/// What to do with a line from a client, its line end aside.
#[derive(Debug)]
pub enum LineStep {
    /// Nothing in it.
    Skip,
    /// Send this reply and hang up.
    HangUp(Response),
    /// Parse this as a request.
    Parse(Vec<u8>),
}

/// A line without the carriage return that may close it.
pub open spec fn stripped(line: Seq<u8>) -> Seq<u8> {
    if line.len() > 0 && line.last() == 13 {
        line.drop_last()
    } else {
        line
    }
}

/// What to do with a line from a client.
pub fn take_line(line: Vec<u8>) -> (res: LineStep)
    ensures
        if line@.len() > MAX_REQUEST_BYTES {
            res is HangUp && res->HangUp_0@ == (ResponseView::Error {
                message: "request too large"@,
            })
        } else if stripped(line@).len() == 0 {
            res is Skip
        } else {
            res is Parse && res->Parse_0@ == stripped(line@)
        },
{
    if line.len() > MAX_REQUEST_BYTES {
        return LineStep::HangUp(Response::error("request too large"));
    }
    let mut line = line;
    let n = line.len();
    if n > 0 && line[n - 1] == 13 {
        let last = line.pop();
    }
    if line.len() == 0 {
        LineStep::Skip
    } else {
        LineStep::Parse(line)
    }
}

/// The reply to a line that does not parse. Deliberately echoes the reason: the
/// clients are all ours, and a developer debugging the protocol needs to know
/// what broke.
pub fn unparsed(reason: &str) -> (res: Response)
    ensures
        res@ == (ResponseView::Error { message: "could not parse request: "@ + reason@ }),
{
    let mut v = chars_of("could not parse request: ");
    append_chars(&mut v, &chars_of(reason));
    let message = string_of(&v);
    Response::error(message.as_str())
}

/// A message as a protocol line.
pub open spec fn framed(message: Seq<char>) -> Seq<char> {
    message.push('\n')
}

/// A message as a protocol line, including the trailing newline.
pub fn encode_line(message: &str) -> (res: String)
    ensures
        res@ == framed(message@),
{
    let mut v = chars_of(message);
    v.push('\n');
    string_of(&v)
}

/// The line sent where a reply could not be encoded.
pub fn encoding_failure(reason: &str) -> (res: String)
    ensures
        res@ == "{\"result\":\"error\",\"message\":\""@ + reason@ + "\"}\n"@,
{
    let mut v = chars_of("{\"result\":\"error\",\"message\":\"");
    append_chars(&mut v, &chars_of(reason));
    append_chars(&mut v, &chars_of("\"}\n"));
    string_of(&v)
}

/// What came of binding the control socket.
#[derive(Debug, Clone, Copy, PartialEq, Eq, Structural)]
pub enum Bound {
    Listening,
    /// The address is taken; `answered` where something listens there.
    Taken { answered: bool },
    Failed,
}

/// What to do next.
#[derive(Debug, Clone, Copy, PartialEq, Eq, Structural)]
pub enum BindStep {
    Serve,
    /// Remove the stale socket and bind again.
    Replace,
    /// Another daemon is at work: leave its socket alone.
    Yield,
    GiveUp,
}

/// A socket file whose daemon is gone cannot be bound over, but it also cannot be
/// blindly deleted: doing so would let a second daemon steal the socket from a
/// healthy first one. So it is removed only when nothing answers.
pub fn after_bind(bound: Bound) -> (res: BindStep)
    ensures
        res == match bound {
            Bound::Listening => BindStep::Serve,
            Bound::Taken { answered } => if answered {
                BindStep::Yield
            } else {
                BindStep::Replace
            },
            Bound::Failed => BindStep::GiveUp,
        },
{
    match bound {
        Bound::Listening => BindStep::Serve,
        Bound::Taken { answered } => if answered {
            BindStep::Yield
        } else {
            BindStep::Replace
        },
        Bound::Failed => BindStep::GiveUp,
    }
}

/// Messages without a newline, each on its line, come apart again in order.
pub proof fn law_lines_come_apart(first: Seq<char>, second: Seq<char>)
    requires
        !first.contains('\n'),
        !second.contains('\n'),
    ensures
        segments(framed(first) + framed(second), '\n') == seq![
            first,
            second,
            Seq::<char>::empty(),
        ],
{
    lemma_segments_single(first, '\n');
    lemma_segments_append(first, second, '\n');
    let both = first.push('\n') + second;
    lemma_segments_append(both, Seq::<char>::empty(), '\n');
    assert(both.push('\n') + Seq::<char>::empty() == framed(first) + framed(second));
    assert(seq![first].push(second).push(Seq::<char>::empty()) == seq![
        first,
        second,
        Seq::<char>::empty(),
    ]);
}

/// What a client frames as a line is what the daemon goes on to parse, carriage
/// return or not, as long as it is not blank and not too long.
pub proof fn law_line_body_is_kept(body: Seq<u8>)
    requires
        body.len() > 0,
        body.last() != 13,
    ensures
        stripped(body) == body,
        stripped(body.push(13)) == body,
{
    assert(body.push(13).drop_last() == body);
}

} // verus!
