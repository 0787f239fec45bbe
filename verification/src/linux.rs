//! The Linux clipboard.
//!
//! Linux has no single clipboard API: Wayland and X11 disagree, and on X11 the
//! clipboard is owned by a live process rather than the compositor. Pasteport
//! drives the standard helper tools, one short-lived subprocess per question:
//!
//! * Wayland: `wl-paste` / `wl-copy` from `wl-clipboard`
//! * X11: `xclip`, or `xsel` as a fallback
//!
//! This module decides which helper to run with which arguments, and what its
//! output means. Running it is left to the caller.

use vstd::prelude::*;
use crate::clip::{opt_clip, ClipKind, NewClip, NewClipView};
use crate::clipboard::{
    concealed_clip, concealed_placeholder, has_type, is_concealed, marked_concealed, offers, Error,
    Payload, Result,
};
use crate::seqs::lemma_filter_step;
use crate::text::{
    chars_of, owned, same, segments, split_segments, string_of, strs_view, trim, trim_chars,
};
use crate::trusted::{lossy_utf8, utf8_lossy};
use crate::view::{append_bytes, opt_bytes, opt_text};

verus! {

/// Which helper Pasteport found on this system.
#[derive(Debug, Clone, Copy, PartialEq, Eq, Structural)]
pub enum LinuxTool {
    /// `wl-clipboard`, used under Wayland. Supports type listing and images.
    WlClipboard,
    /// `xclip`, used under X11. Supports type listing and images.
    Xclip,
    /// `xsel`. Text only, no type listing.
    Xsel,
}

impl LinuxTool {
    /// The tool's name.
    pub open spec fn text(self) -> Seq<char> {
        match self {
            LinuxTool::WlClipboard => "wl-clipboard"@,
            LinuxTool::Xclip => "xclip"@,
            LinuxTool::Xsel => "xsel"@,
        }
    }

    pub fn as_str(self) -> (res: &'static str)
        ensures
            res@ == self.text(),
    {
        match self {
            LinuxTool::WlClipboard => "wl-clipboard",
            LinuxTool::Xclip => "xclip",
            LinuxTool::Xsel => "xsel",
        }
    }

    pub fn supports_images(self) -> (res: bool)
        ensures
            res == (self != LinuxTool::Xsel),
    {
        matches!(self, LinuxTool::WlClipboard | LinuxTool::Xclip)
    }
}

/// What was found out about the session: its type and the installed helpers.
#[derive(Debug, Clone, Copy, PartialEq, Eq, Structural)]
pub struct Session {
    pub wayland: bool,
    pub wl_paste: bool,
    pub wl_copy: bool,
    pub xclip: bool,
    pub xsel: bool,
}

impl Session {
    /// Whether a helper is installed.
    pub open spec fn offers_tool(self, tool: LinuxTool) -> bool {
        match tool {
            LinuxTool::WlClipboard => self.wl_paste && self.wl_copy,
            LinuxTool::Xclip => self.xclip,
            LinuxTool::Xsel => self.xsel,
        }
    }

    /// The helpers in order of preference.
    pub open spec fn preference(self) -> Seq<LinuxTool> {
        if self.wayland {
            seq![LinuxTool::WlClipboard, LinuxTool::Xclip, LinuxTool::Xsel]
        } else {
            seq![LinuxTool::Xclip, LinuxTool::Xsel, LinuxTool::WlClipboard]
        }
    }
}

/// Prefer the helper matching the session type, then fall back to anything
/// installed: a Wayland session running XWayland can still use `xclip`.
pub fn detect_tool(session: &Session) -> (res: Option<LinuxTool>)
    ensures
        match res {
            Some(tool) => exists|i: int|
                0 <= i < 3 && #[trigger] session.preference()[i] == tool && session.offers_tool(
                    tool,
                ) && forall|j: int|
                    0 <= j < i ==> !session.offers_tool(#[trigger] session.preference()[j]),
            None => forall|j: int|
                0 <= j < 3 ==> !session.offers_tool(#[trigger] session.preference()[j]),
        },
{
    let wl = session.wl_paste && session.wl_copy;
    let ghost order = session.preference();
    assert(order[0] == order[0] && order[1] == order[1] && order[2] == order[2]);
    if session.wayland {
        if wl {
            Some(LinuxTool::WlClipboard)
        } else if session.xclip {
            Some(LinuxTool::Xclip)
        } else if session.xsel {
            Some(LinuxTool::Xsel)
        } else {
            None
        }
    } else if session.xclip {
        Some(LinuxTool::Xclip)
    } else if session.xsel {
        Some(LinuxTool::Xsel)
    } else if wl {
        Some(LinuxTool::WlClipboard)
    } else {
        None
    }
}

// ---- running helpers ---------------------------------------------------

/// A helper to run.
#[derive(Debug)]
pub struct HelperCommand {
    pub program: &'static str,
    pub args: Vec<String>,
}

/// The content of a [`HelperCommand`].
#[verifier::ext_equal]
pub struct CommandView {
    pub program: Seq<char>,
    pub args: Seq<Seq<char>>,
}

impl View for HelperCommand {
    type V = CommandView;

    open spec fn view(&self) -> CommandView {
        CommandView { program: self.program@, args: strs_view(self.args@) }
    }
}

fn command(program: &'static str, args: Vec<String>) -> (res: HelperCommand)
    ensures
        res@ == (CommandView { program: program@, args: strs_view(args@) }),
{
    HelperCommand { program, args }
}

/// What a finished helper's exit means: its output, or why it failed.
pub fn helper_result(
    program: &str,
    success: bool,
    status: String,
    stdout: Vec<u8>,
    stderr: &Vec<u8>,
) -> (res: Result<Vec<u8>>)
    ensures
        match res {
            Ok(out) => success && out@ == stdout@,
            Err(e) => !success && match e {
                Error::HelperFailed { tool, status: s, stderr: text } => tool@ == program@ && s@
                    == status@ && text@ == trim(lossy_utf8(stderr@)),
                _ => false,
            },
        },
{
    if success {
        Ok(stdout)
    } else {
        let text = utf8_lossy(stderr);
        let trimmed = trim_chars(&chars_of(text.as_str()));
        Err(Error::HelperFailed { tool: owned(program), status, stderr: string_of(&trimmed) })
    }
}

/// A failed helper just means "nothing there".
///
/// `wl-paste` exits non-zero on an empty clipboard, and `xclip` does the same
/// when asked for a target it does not have, so both are expected outcomes
/// rather than errors.
pub fn run_ok(outcome: Result<Vec<u8>>) -> (res: Option<Vec<u8>>)
    ensures
        match outcome {
            Ok(out) => res is Some && res->Some_0@ == out@,
            Err(_) => res is None,
        },
{
    match outcome {
        Ok(out) => Some(out),
        Err(_) => None,
    }
}

// ---- reading -----------------------------------------------------------

/// The image types looked for, in order.
pub open spec fn image_mime(i: int) -> Seq<char> {
    if i == 0 {
        "image/png"@
    } else if i == 1 {
        "image/jpeg"@
    } else {
        "image/tiff"@
    }
}

fn image_mime_at(i: usize) -> (res: &'static str)
    ensures
        res@ == image_mime(i as int),
{
    if i == 0 {
        "image/png"
    } else if i == 1 {
        "image/jpeg"
    } else {
        "image/tiff"
    }
}

/// The next question to the clipboard.
#[derive(Debug, Clone, Copy, PartialEq, Eq, Structural)]
pub enum Want {
    /// The types on offer.
    Types,
    /// The payload of the image type with this number.
    Image(usize),
    /// The text; `files` where it is expected to list files, `plain` once asking
    /// for UTF-8 has failed.
    Text { files: bool, plain: bool },
}

/// A reading under way: the types on offer and the next question.
#[derive(Debug)]
pub struct Reader {
    pub tool: LinuxTool,
    pub types: Vec<String>,
    pub want: Want,
}

/// The content of a [`Reader`].
#[verifier::ext_equal]
pub struct ReaderView {
    pub tool: LinuxTool,
    pub types: Seq<Seq<char>>,
    pub want: Want,
}

impl View for Reader {
    type V = ReaderView;

    open spec fn view(&self) -> ReaderView {
        ReaderView { tool: self.tool, types: strs_view(self.types@), want: self.want }
    }
}

/// How far a reading is: another question, or the clip that was found.
#[derive(Debug)]
pub enum Reading {
    More(Reader),
    Done(Option<NewClip>),
}

/// The content of a [`Reading`].
pub enum ReadingView {
    More(ReaderView),
    Done(Option<NewClipView>),
}

impl View for Reading {
    type V = ReadingView;

    open spec fn view(&self) -> ReadingView {
        match self {
            Reading::More(reader) => ReadingView::More(reader@),
            Reading::Done(clip) => ReadingView::Done(opt_clip(*clip)),
        }
    }
}

/// The types named in a helper's listing, one per line.
pub open spec fn listed(text: Seq<char>) -> Seq<Seq<char>> {
    segments(text, '\n').map_values(|l: Seq<char>| trim(l)).filter(|l: Seq<char>| l.len() > 0)
}

/// The types on offer as a helper's output gives them.
pub open spec fn listed_types(out: Option<Seq<u8>>) -> Seq<Seq<char>> {
    match out {
        Some(bytes) => listed(lossy_utf8(bytes)),
        None => Seq::empty(),
    }
}

/// The text in a helper's output, if there is any.
pub open spec fn text_out(out: Option<Seq<u8>>) -> Option<Seq<char>> {
    match out {
        Some(bytes) => if bytes.len() == 0 {
            None
        } else {
            Some(lossy_utf8(bytes))
        },
        None => None,
    }
}

impl ReaderView {
    /// A reading that has not begun. Without a type listing there is only text.
    pub open spec fn start(tool: LinuxTool) -> ReaderView {
        ReaderView {
            tool,
            types: Seq::empty(),
            want: if tool == LinuxTool::Xsel {
                Want::Text { files: false, plain: false }
            } else {
                Want::Types
            },
        }
    }

    /// The helper that answers the next question.
    pub open spec fn command(self) -> CommandView {
        match self.want {
            Want::Types => if self.tool == LinuxTool::WlClipboard {
                CommandView { program: "wl-paste"@, args: seq!["--list-types"@] }
            } else {
                CommandView {
                    program: "xclip"@,
                    args: seq!["-selection"@, "clipboard"@, "-o"@, "-t"@, "TARGETS"@],
                }
            },
            Want::Image(i) => if self.tool == LinuxTool::WlClipboard {
                CommandView { program: "wl-paste"@, args: seq!["--type"@, image_mime(i as int)] }
            } else {
                CommandView {
                    program: "xclip"@,
                    args: seq!["-selection"@, "clipboard"@, "-t"@, image_mime(i as int), "-o"@],
                }
            },
            Want::Text { plain, .. } => match self.tool {
                LinuxTool::WlClipboard => if plain {
                    CommandView { program: "wl-paste"@, args: seq!["--no-newline"@] }
                } else {
                    CommandView {
                        program: "wl-paste"@,
                        args: seq!["--no-newline"@, "--type"@, "text/plain;charset=utf-8"@],
                    }
                },
                LinuxTool::Xclip => CommandView {
                    program: "xclip"@,
                    args: seq!["-selection"@, "clipboard"@, "-o"@],
                },
                LinuxTool::Xsel => CommandView {
                    program: "xsel"@,
                    args: seq!["--clipboard"@, "--output"@],
                },
            },
        }
    }

    /// The same reading with another question.
    pub open spec fn asking(self, want: Want) -> ReadingView {
        ReadingView::More(ReaderView { want, ..self })
    }

    /// The first image type on offer from number `from` on, else the text.
    pub open spec fn past_images(self, from: int) -> ReadingView
        decreases 3 - from,
    {
        if from >= 3 {
            self.asking(
                Want::Text { files: offers(self.types, "text/uri-list"@), plain: false },
            )
        } else if self.tool != LinuxTool::Xsel && offers(self.types, image_mime(from)) {
            self.asking(Want::Image(from as usize))
        } else {
            self.past_images(from + 1)
        }
    }

    /// The clip that a text becomes.
    pub open spec fn text_clip(self, files: bool, text: Seq<char>) -> NewClipView {
        let clip = NewClipView::text(text);
        if files {
            NewClipView { kind: ClipKind::File, mime: "text/uri-list"@, ..clip }
        } else if offers(self.types, "text/html"@) {
            NewClipView { kind: ClipKind::RichText, mime: "text/html"@, ..clip }
        } else {
            clip
        }
    }

    /// Where the answer to the next question leads. A helper that failed gives
    /// no answer.
    pub open spec fn answered(self, out: Option<Seq<u8>>) -> ReadingView {
        match self.want {
            Want::Types => {
                let types = listed_types(out);
                if marked_concealed(types) {
                    ReadingView::Done(Some(concealed_clip()))
                } else {
                    (ReaderView { types, ..self }).past_images(0)
                }
            },
            Want::Image(i) => match out {
                Some(bytes) => if bytes.len() > 0 {
                    ReadingView::Done(Some(NewClipView::image(bytes, image_mime(i as int))))
                } else {
                    self.past_images(i + 1)
                },
                None => self.past_images(i + 1),
            },
            Want::Text { files, plain } => if out is None && !plain && self.tool
                == LinuxTool::WlClipboard {
                self.asking(Want::Text { files, plain: true })
            } else {
                match text_out(out) {
                    Some(text) => ReadingView::Done(Some(self.text_clip(files, text))),
                    None => if files {
                        self.asking(Want::Text { files: false, plain: false })
                    } else {
                        ReadingView::Done(None)
                    },
                }
            },
        }
    }
}

impl Reader {
    /// A reading that has not begun.
    pub fn start(tool: LinuxTool) -> (res: Self)
        ensures
            res@ == ReaderView::start(tool),
    {
        let want = if tool == LinuxTool::Xsel {
            Want::Text { files: false, plain: false }
        } else {
            Want::Types
        };
        let reader = Reader { tool, types: Vec::new(), want };
        assert(reader@.types == Seq::<Seq<char>>::empty());
        reader
    }

    /// The helper that answers the next question.
    pub fn command(&self) -> (res: HelperCommand)
        ensures
            res@ == self@.command(),
    {
        let mut args: Vec<String> = Vec::new();
        match self.want {
            Want::Types => {
                if self.tool == LinuxTool::WlClipboard {
                    args.push(owned("--list-types"));
                    assert(strs_view(args@) == seq!["--list-types"@]);
                    command("wl-paste", args)
                } else {
                    args.push(owned("-selection"));
                    args.push(owned("clipboard"));
                    args.push(owned("-o"));
                    args.push(owned("-t"));
                    args.push(owned("TARGETS"));
                    assert(strs_view(args@) == seq![
                        "-selection"@,
                        "clipboard"@,
                        "-o"@,
                        "-t"@,
                        "TARGETS"@,
                    ]);
                    command("xclip", args)
                }
            },
            Want::Image(i) => {
                let mime = image_mime_at(i);
                if self.tool == LinuxTool::WlClipboard {
                    args.push(owned("--type"));
                    args.push(owned(mime));
                    assert(strs_view(args@) == seq!["--type"@, mime@]);
                    command("wl-paste", args)
                } else {
                    args.push(owned("-selection"));
                    args.push(owned("clipboard"));
                    args.push(owned("-t"));
                    args.push(owned(mime));
                    args.push(owned("-o"));
                    assert(strs_view(args@) == seq![
                        "-selection"@,
                        "clipboard"@,
                        "-t"@,
                        mime@,
                        "-o"@,
                    ]);
                    command("xclip", args)
                }
            },
            Want::Text { plain, .. } => match self.tool {
                LinuxTool::WlClipboard => {
                    args.push(owned("--no-newline"));
                    if !plain {
                        // Ask for UTF-8 explicitly, falling back to whatever is
                        // there.
                        args.push(owned("--type"));
                        args.push(owned("text/plain;charset=utf-8"));
                        assert(strs_view(args@) == seq![
                            "--no-newline"@,
                            "--type"@,
                            "text/plain;charset=utf-8"@,
                        ]);
                    } else {
                        assert(strs_view(args@) == seq!["--no-newline"@]);
                    }
                    command("wl-paste", args)
                },
                LinuxTool::Xclip => {
                    args.push(owned("-selection"));
                    args.push(owned("clipboard"));
                    args.push(owned("-o"));
                    assert(strs_view(args@) == seq!["-selection"@, "clipboard"@, "-o"@]);
                    command("xclip", args)
                },
                LinuxTool::Xsel => {
                    args.push(owned("--clipboard"));
                    args.push(owned("--output"));
                    assert(strs_view(args@) == seq!["--clipboard"@, "--output"@]);
                    command("xsel", args)
                },
            },
        }
    }

    fn past_images(self, from: usize) -> (res: Reading)
        requires
            from <= 3,
        ensures
            res@ == self@.past_images(from as int),
    {
        let mut i = from;
        while i < 3
            invariant
                from <= i <= 3,
                self@.past_images(from as int) == self@.past_images(i as int),
            decreases 3 - i,
        {
            if self.tool != LinuxTool::Xsel && has_type(&self.types, image_mime_at(i)) {
                return Reading::More(Reader { want: Want::Image(i), ..self });
            }
            i += 1;
        }
        let files = has_type(&self.types, "text/uri-list");
        Reading::More(Reader { want: Want::Text { files, plain: false }, ..self })
    }

    /// Where the answer to the next question leads. Nothing is read from a
    /// clipboard whose types mark it as concealed.
    pub fn answer(self, out: Option<Vec<u8>>) -> (res: Reading)
        requires
            self.want matches Want::Image(i) ==> i < 3,
        ensures
            res@ == self@.answered(opt_bytes(out)),
    {
        match self.want {
            Want::Types => {
                let types = match &out {
                    Some(bytes) => list_types(bytes),
                    None => Vec::new(),
                };
                assert(strs_view(types@) == listed_types(opt_bytes(out)));
                if is_concealed(&types) {
                    return Reading::Done(Some(concealed_placeholder()));
                }
                Reader { types, ..self }.past_images(0)
            },
            Want::Image(i) => match out {
                Some(bytes) => if bytes.len() > 0 {
                    Reading::Done(Some(NewClip::image(bytes, image_mime_at(i))))
                } else {
                    self.past_images(i + 1)
                },
                None => self.past_images(i + 1),
            },
            Want::Text { files, plain } => {
                if out.is_none() && !plain && self.tool == LinuxTool::WlClipboard {
                    return Reading::More(
                        Reader { want: Want::Text { files, plain: true }, ..self },
                    );
                }
                match read_text(&out) {
                    Some(text) => {
                        let mut clip = NewClip::text(text.as_str());
                        if files {
                            clip.kind = ClipKind::File;
                            clip.mime = owned("text/uri-list");
                        } else if has_type(&self.types, "text/html") {
                            clip.kind = ClipKind::RichText;
                            clip.mime = owned("text/html");
                        }
                        Reading::Done(Some(clip))
                    },
                    None => if files {
                        Reading::More(
                            Reader { want: Want::Text { files: false, plain: false }, ..self },
                        )
                    } else {
                        Reading::Done(None)
                    },
                }
            },
        }
    }
}

/// Lossy on purpose: a clipboard holding invalid UTF-8 is still worth
/// remembering, and the replacement characters are visible to the user.
fn read_text(out: &Option<Vec<u8>>) -> (res: Option<String>)
    ensures
        opt_text(res) == text_out(opt_bytes(*out)),
{
    match out {
        Some(bytes) => if bytes.len() == 0 {
            None
        } else {
            Some(utf8_lossy(bytes))
        },
        None => None,
    }
}

fn list_types(bytes: &Vec<u8>) -> (res: Vec<String>)
    ensures
        strs_view(res@) == listed(lossy_utf8(bytes@)),
{
    let text = utf8_lossy(bytes);
    let lines = split_segments(&chars_of(text.as_str()), '\n');
    let mut out: Vec<String> = Vec::new();
    let ghost all = segments(text@, '\n').map_values(|l: Seq<char>| trim(l));
    let ghost keep = |l: Seq<char>| l.len() > 0;
    proof {
        crate::seqs::lemma_sweep_ends(all, keep);
        assert(strs_view(out@) == Seq::<Seq<char>>::empty());
    }
    for i in 0..lines.len()
        invariant
            crate::text::chars_view(lines@) == segments(text@, '\n'),
            all == segments(text@, '\n').map_values(|l: Seq<char>| trim(l)),
            keep == (|l: Seq<char>| l.len() > 0),
            strs_view(out@) == all.take(i as int).filter(keep),
    {
        proof {
            lemma_filter_step(all, keep, i as int);
            assert(all[i as int] == trim(crate::text::chars_view(lines@)[i as int]));
        }
        let line = trim_chars(&lines[i]);
        if line.len() > 0 {
            let ghost was = out@;
            out.push(string_of(&line));
            assert(strs_view(out@) == strs_view(was).push(line@));
        }
    }
    assert(all.take(all.len() as int) == all);
    out
}

/// How many questions a reading can still ask.
pub open spec fn questions_left(reader: ReaderView) -> nat {
    match reader.want {
        Want::Types => 8,
        Want::Image(i) => if i < 3 {
            (7 - i) as nat
        } else {
            4
        },
        Want::Text { files, plain } => (if files {
            2nat
        } else {
            0
        }) + (if plain {
            1nat
        } else {
            2
        }),
    }
}

proof fn lemma_past_images(reader: ReaderView, from: int)
    requires
        0 <= from <= 3,
    ensures
        reader.past_images(from) is More,
        questions_left(reader.past_images(from)->More_0) <= 7 - from,
        reader.past_images(from)->More_0.want is Types == false,
        reader.past_images(from)->More_0.want matches Want::Image(i) ==> from <= i < 3,
    decreases 3 - from,
{
    if from < 3 {
        lemma_past_images(reader, from + 1);
    }
}

/// Every answer brings a reading nearer to its end, so it ends after at most
/// eight questions.
pub proof fn law_reading_ends(reader: ReaderView, out: Option<Seq<u8>>)
    requires
        reader.want matches Want::Image(i) ==> i < 3,
    ensures
        match reader.answered(out) {
            ReadingView::More(next) => {
                &&& questions_left(next) < questions_left(reader)
                &&& next.want matches Want::Image(i) ==> i < 3
            },
            ReadingView::Done(_) => true,
        },
{
    let types = listed_types(out);
    lemma_past_images(ReaderView { types, ..reader }, 0);
    match reader.want {
        Want::Image(i) => {
            lemma_past_images(reader, i + 1);
        },
        _ => {},
    }
}

/// A clipboard whose types mark it as concealed is asked nothing further: the
/// reading ends with a clip that carries no payload.
pub proof fn law_concealed_is_not_read(reader: ReaderView, out: Option<Seq<u8>>)
    requires
        reader.want == Want::Types,
        marked_concealed(listed_types(out)),
    ensures
        reader.answered(out) == ReadingView::Done(Some(concealed_clip())),
        concealed_clip().concealed,
        concealed_clip().text is None,
        concealed_clip().bytes is None,
{
}

// ---- watching and writing ----------------------------------------------

/// What a poll reports, given the digest last seen and what was read now.
pub open spec fn reported(
    seen: Option<Seq<char>>,
    read: Option<NewClipView>,
) -> Option<NewClipView> {
    match read {
        Some(clip) => if seen == Some(clip.digest()) {
            None
        } else {
            Some(clip)
        },
        None => None,
    }
}

/// The digest to remember of what was read.
pub open spec fn remembered(read: Option<NewClipView>) -> Option<Seq<char>> {
    match read {
        Some(clip) => Some(clip.digest()),
        None => None,
    }
}

/// Contents that were seen already are not reported again, and what is reported
/// differs in digest from what was seen last.
pub proof fn law_only_changes_are_reported(
    seen: Option<Seq<char>>,
    before: Option<NewClipView>,
    now: NewClipView,
)
    ensures
        before is Some && before->Some_0.preimage() == now.preimage() ==> reported(
            remembered(before),
            Some(now),
        ) is None,
        reported(seen, Some(now)) is Some ==> seen != Some(now.digest()),
        reported(seen, None) is None,
{
}

/// The Linux clipboard, via whichever helper is available.
#[derive(Debug)]
pub struct LinuxClipboard {
    tool: LinuxTool,
    /// Digest of the contents at the last poll. Linux gives us no change
    /// counter, so change detection means hashing what we read.
    last_digest: Option<String>,
}

impl LinuxClipboard {
    /// The helper in use.
    pub closed spec fn used(&self) -> LinuxTool {
        self.tool
    }

    /// The digest of the contents last seen.
    pub closed spec fn seen(&self) -> Option<Seq<char>> {
        opt_text(self.last_digest)
    }

    /// Pick a helper, preferring the one matching the current session type.
    /// Follow with [`LinuxClipboard::absorb`], so that what is on the clipboard
    /// already is not captured as a fresh copy.
    pub fn new(session: &Session) -> (res: Result<Self>)
        ensures
            match res {
                Ok(cb) => cb.seen() is None && exists|i: int|
                    0 <= i < 3 && #[trigger] session.preference()[i] == cb.used()
                        && session.offers_tool(cb.used()) && forall|j: int|
                        0 <= j < i ==> !session.offers_tool(#[trigger] session.preference()[j]),
                Err(e) => e is NoHelperTool && forall|j: int|
                    0 <= j < 3 ==> !session.offers_tool(#[trigger] session.preference()[j]),
            },
    {
        match detect_tool(session) {
            Some(tool) => Ok(LinuxClipboard { tool, last_digest: None }),
            None => Err(Error::NoHelperTool),
        }
    }

    /// Force a specific helper. Mainly for tests and `--clipboard-tool`.
    pub fn with_tool(tool: LinuxTool) -> (res: Self)
        ensures
            res.used() == tool,
            res.seen() is None,
    {
        LinuxClipboard { tool, last_digest: None }
    }

    pub fn tool(&self) -> (res: LinuxTool)
        ensures
            res == self.used(),
    {
        self.tool
    }

    /// Short name for status reports.
    pub fn name(&self) -> (res: &'static str)
        ensures
            res@ == match self.used() {
                LinuxTool::WlClipboard => "linux-wl-clipboard"@,
                LinuxTool::Xclip => "linux-xclip"@,
                LinuxTool::Xsel => "linux-xsel"@,
            },
    {
        match self.tool {
            LinuxTool::WlClipboard => "linux-wl-clipboard",
            LinuxTool::Xclip => "linux-xclip",
            LinuxTool::Xsel => "linux-xsel",
        }
    }

    /// What a poll reports, given what was read: the contents, unless they are
    /// what was seen last.
    pub fn poll(&mut self, read: Option<NewClip>) -> (res: Option<NewClip>)
        ensures
            final(self).used() == old(self).used(),
            opt_clip(res) == reported(old(self).seen(), opt_clip(read)),
            final(self).seen() == remembered(opt_clip(read)),
    {
        match read {
            None => {
                self.last_digest = None;
                None
            },
            Some(clip) => {
                let digest = clip.digest();
                let known = match &self.last_digest {
                    Some(last) => same(last.as_str(), digest.as_str()),
                    None => false,
                };
                if known {
                    return None;
                }
                self.last_digest = Some(digest);
                Some(clip)
            },
        }
    }

    /// What a read on demand reports: whatever was read.
    pub fn read_now(&mut self, read: Option<NewClip>) -> (res: Option<NewClip>)
        ensures
            final(self).used() == old(self).used(),
            res == read,
            final(self).seen() == remembered(opt_clip(read)),
    {
        self.last_digest = match &read {
            Some(clip) => Some(clip.digest()),
            None => None,
        };
        read
    }

    /// Takes note of contents so that the next poll does not report them: those
    /// found at startup and those just written.
    pub fn absorb(&mut self, read: &Option<NewClip>)
        ensures
            final(self).used() == old(self).used(),
            final(self).seen() == if *read is Some {
                remembered(opt_clip(*read))
            } else {
                old(self).seen()
            },
    {
        if let Some(clip) = read {
            self.last_digest = Some(clip.digest());
        }
    }

    /// The helper that puts a payload on the clipboard, with its input.
    pub fn write_command(&self, payload: Payload<'_>) -> (res: Result<(HelperCommand, Vec<u8>)>)
        ensures
            match res {
                Ok(job) => job.0@ == write_command_of(self.used(), payload) && job.1@
                    == input_of(payload) && !(self.used() == LinuxTool::Xsel && payload is Image),
                Err(e) => self.used() == LinuxTool::Xsel && payload is Image
                    && e is UnsupportedContent && e->mime@ == payload->mime@,
            },
    {
        let mut args: Vec<String> = Vec::new();
        let mut input: Vec<u8> = Vec::new();
        match payload {
            Payload::Text(text) => {
                append_bytes(&mut input, text.as_bytes());
                assert(input@ == input_of(payload));
                match self.tool {
                    LinuxTool::WlClipboard => {
                        assert(strs_view(args@) == Seq::<Seq<char>>::empty());
                        Ok((command("wl-copy", args), input))
                    },
                    LinuxTool::Xclip => {
                        args.push(owned("-selection"));
                        args.push(owned("clipboard"));
                        args.push(owned("-i"));
                        assert(strs_view(args@) == seq!["-selection"@, "clipboard"@, "-i"@]);
                        Ok((command("xclip", args), input))
                    },
                    LinuxTool::Xsel => {
                        args.push(owned("--clipboard"));
                        args.push(owned("--input"));
                        assert(strs_view(args@) == seq!["--clipboard"@, "--input"@]);
                        Ok((command("xsel", args), input))
                    },
                }
            },
            Payload::Image { bytes, mime } => {
                append_bytes(&mut input, bytes);
                assert(input@ == input_of(payload));
                match self.tool {
                    LinuxTool::WlClipboard => {
                        args.push(owned("--type"));
                        args.push(owned(mime));
                        assert(strs_view(args@) == seq!["--type"@, mime@]);
                        Ok((command("wl-copy", args), input))
                    },
                    LinuxTool::Xclip => {
                        args.push(owned("-selection"));
                        args.push(owned("clipboard"));
                        args.push(owned("-t"));
                        args.push(owned(mime));
                        args.push(owned("-i"));
                        assert(strs_view(args@) == seq![
                            "-selection"@,
                            "clipboard"@,
                            "-t"@,
                            mime@,
                            "-i"@,
                        ]);
                        Ok((command("xclip", args), input))
                    },
                    LinuxTool::Xsel => Err(Error::UnsupportedContent { mime: owned(mime) }),
                }
            },
        }
    }
}

/// The bytes that a payload is handed over as.
pub open spec fn input_of(payload: Payload<'_>) -> Seq<u8> {
    match payload {
        Payload::Text(text) => vstd::utf8::encode_utf8(text@),
        Payload::Image { bytes, .. } => bytes@,
    }
}

/// The helper that puts a payload on the clipboard.
pub open spec fn write_command_of(tool: LinuxTool, payload: Payload<'_>) -> CommandView {
    match (tool, payload) {
        (LinuxTool::WlClipboard, Payload::Text(_)) => CommandView {
            program: "wl-copy"@,
            args: Seq::empty(),
        },
        (LinuxTool::WlClipboard, Payload::Image { mime, .. }) => CommandView {
            program: "wl-copy"@,
            args: seq!["--type"@, mime@],
        },
        (LinuxTool::Xclip, Payload::Text(_)) => CommandView {
            program: "xclip"@,
            args: seq!["-selection"@, "clipboard"@, "-i"@],
        },
        (LinuxTool::Xclip, Payload::Image { mime, .. }) => CommandView {
            program: "xclip"@,
            args: seq!["-selection"@, "clipboard"@, "-t"@, mime@, "-i"@],
        },
        (LinuxTool::Xsel, _) => CommandView {
            program: "xsel"@,
            args: seq!["--clipboard"@, "--input"@],
        },
    }
}

} // verus!
