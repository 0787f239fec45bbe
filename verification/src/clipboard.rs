//! What a platform clipboard offers, and how reading or writing it can fail.

use vstd::prelude::*;
use crate::clip::{NewClip, NewClipView};
use crate::text::{append_chars, chars_of, same, string_of, strs_view};

verus! {

/// Failures reading or writing a platform clipboard.
#[derive(Debug, PartialEq)]
pub enum Error {
    UnsupportedPlatform(String),
    /// Linux only: none of the supported helper tools are installed.
    NoHelperTool,
    HelperFailed { tool: String, status: String, stderr: String },
    HelperSpawn { tool: String, reason: String },
    ClipboardUnavailable,
    UnsupportedContent { mime: String },
}

impl Error {
    /// The message shown to a person.
    pub open spec fn text(self) -> Seq<char> {
        match self {
            Error::UnsupportedPlatform(name) => "Pasteport has no clipboard backend for "@ + name@,
            Error::NoHelperTool =>
                "no clipboard helper found. Install wl-clipboard (Wayland) or xclip/xsel (X11):\n  Debian/Ubuntu: sudo apt install wl-clipboard xclip\n  Fedora:        sudo dnf install wl-clipboard xclip\n  Arch:          sudo pacman -S wl-clipboard xclip"@,
            Error::HelperFailed { tool, status, stderr } => "clipboard helper "@ + tool@
                + " failed with status "@ + status@ + ": "@ + stderr@,
            Error::HelperSpawn { tool, reason } => "could not run clipboard helper "@ + tool@
                + ": "@ + reason@,
            Error::ClipboardUnavailable => "the system clipboard is unavailable"@,
            Error::UnsupportedContent { mime } => "clipboard contained "@ + mime@
                + ", which Pasteport cannot represent"@,
        }
    }

    /// The message shown to a person.
    pub fn message(&self) -> (res: String)
        ensures
            res@ == self.text(),
    {
        let mut v: Vec<char> = Vec::new();
        match self {
            Error::UnsupportedPlatform(name) => {
                append_chars(&mut v, &chars_of("Pasteport has no clipboard backend for "));
                append_chars(&mut v, &chars_of(name.as_str()));
            },
            Error::NoHelperTool => {
                append_chars(
                    &mut v,
                    &chars_of(
                        "no clipboard helper found. Install wl-clipboard (Wayland) or xclip/xsel (X11):\n  Debian/Ubuntu: sudo apt install wl-clipboard xclip\n  Fedora:        sudo dnf install wl-clipboard xclip\n  Arch:          sudo pacman -S wl-clipboard xclip",
                    ),
                );
            },
            Error::HelperFailed { tool, status, stderr } => {
                append_chars(&mut v, &chars_of("clipboard helper "));
                append_chars(&mut v, &chars_of(tool.as_str()));
                append_chars(&mut v, &chars_of(" failed with status "));
                append_chars(&mut v, &chars_of(status.as_str()));
                append_chars(&mut v, &chars_of(": "));
                append_chars(&mut v, &chars_of(stderr.as_str()));
            },
            Error::HelperSpawn { tool, reason } => {
                append_chars(&mut v, &chars_of("could not run clipboard helper "));
                append_chars(&mut v, &chars_of(tool.as_str()));
                append_chars(&mut v, &chars_of(": "));
                append_chars(&mut v, &chars_of(reason.as_str()));
            },
            Error::ClipboardUnavailable => {
                append_chars(&mut v, &chars_of("the system clipboard is unavailable"));
            },
            Error::UnsupportedContent { mime } => {
                append_chars(&mut v, &chars_of("clipboard contained "));
                append_chars(&mut v, &chars_of(mime.as_str()));
                append_chars(&mut v, &chars_of(", which Pasteport cannot represent"));
            },
        }
        assert(v@ == self.text());
        string_of(&v)
    }
}

pub type Result<T> = std::result::Result<T, Error>;

/// Something to put on the clipboard.
#[derive(Debug, Clone, Copy)]
pub enum Payload<'a> {
    Text(&'a str),
    Image { bytes: &'a [u8], mime: &'a str },
}

/// A system clipboard. One implementation per platform.
pub trait ClipboardBackend {
    /// Short name for status reports.
    fn name(&self) -> &'static str;

    /// The clipboard's contents, if they changed since the last call.
    fn poll(&mut self) -> Result<Option<NewClip>>;

    /// The clipboard's contents, whether or not they changed.
    fn read_now(&mut self) -> Result<Option<NewClip>>;

    fn write(&mut self, payload: Payload<'_>) -> Result<()>;
}

/// Whether a type marks an item that must not be archived.
pub open spec fn is_marker(name: Seq<char>) -> bool {
    ||| name == "org.nspasteboard.ConcealedType"@
    ||| name == "org.nspasteboard.TransientType"@
    ||| name == "x-kde-passwordManagerHint"@
}

/// Whether any of the offered types marks the item as not to be archived.
pub open spec fn marked_concealed(types: Seq<Seq<char>>) -> bool {
    exists|i: int| 0 <= i < types.len() && is_marker(#[trigger] types[i])
}

/// Whether the offered types mark the item as a password or otherwise as not to
/// be archived. Looked at before any payload is read.
pub fn is_concealed(types: &Vec<String>) -> (res: bool)
    ensures
        res == marked_concealed(strs_view(types@)),
{
    let ghost v = strs_view(types@);
    for i in 0..types.len()
        invariant
            v == strs_view(types@),
            forall|j: int| 0 <= j < i ==> !is_marker(#[trigger] v[j]),
    {
        let name = types[i].as_str();
        assert(v[i as int] == name@);
        if same(name, "org.nspasteboard.ConcealedType") || same(
            name,
            "org.nspasteboard.TransientType",
        ) || same(name, "x-kde-passwordManagerHint") {
            return true;
        }
    }
    false
}

/// What stands for a concealed item: no payload at all.
pub open spec fn concealed_clip() -> NewClipView {
    NewClipView {
        text: None,
        mime: "application/x-concealed"@,
        concealed: true,
        ..NewClipView::text(""@)
    }
}

/// What stands for a concealed item: no payload at all.
pub fn concealed_placeholder() -> (res: NewClip)
    ensures
        res@ == concealed_clip(),
{
    let mut clip = NewClip::text("");
    clip.text = None;
    clip.mime = crate::text::owned("application/x-concealed");
    clip.concealed(true)
}

/// Whether a type is among those offered.
pub open spec fn offers(types: Seq<Seq<char>>, name: Seq<char>) -> bool {
    exists|i: int| 0 <= i < types.len() && #[trigger] types[i] == name
}

/// Whether a type is among those offered.
pub fn has_type(types: &Vec<String>, name: &str) -> (res: bool)
    ensures
        res == offers(strs_view(types@), name@),
{
    let ghost v = strs_view(types@);
    for i in 0..types.len()
        invariant
            v == strs_view(types@),
            forall|j: int| 0 <= j < i ==> #[trigger] v[j] != name@,
    {
        assert(v[i as int] == types@[i as int]@);
        if same(types[i].as_str(), name) {
            return true;
        }
    }
    false
}

} // verus!
