//! Clips: what a clipboard holds, before and after it is stored.

use vstd::prelude::*;
use vstd::utf8::encode_utf8;
use crate::text::{
    all_hex, append_chars, chars_of, decimal, has_prefix, is_hex, join_chars, joined,
    lemma_trim_blank, lower_chars, lowered, owned, is_blank, same, signed_chars, slice_chars,
    split_words, starts_with, string_of, trim, trim_chars, words,
};
use crate::trusted::{blake3_hash_hex, blake3_hex, format_rfc3339, rfc3339};
use crate::view::{append_bytes, copy_opt_bytes, copy_opt_text, opt_bytes, opt_text};

verus! {

/// The kind of thing a clip holds. Drives icons, previews, and filtering.
#[derive(Debug, Clone, Copy, PartialEq, Eq, Hash, Structural)]
pub enum ClipKind {
    Text,
    RichText,
    Link,
    Color,
    Image,
    File,
}

impl ClipKind {
    /// The name the kind is stored under.
    pub open spec fn name(self) -> Seq<char> {
        match self {
            ClipKind::Text => "text"@,
            ClipKind::RichText => "rich_text"@,
            ClipKind::Link => "link"@,
            ClipKind::Color => "color"@,
            ClipKind::Image => "image"@,
            ClipKind::File => "file"@,
        }
    }

    /// The kind with a given name, if any.
    pub open spec fn named(s: Seq<char>) -> Option<ClipKind> {
        if s == "text"@ {
            Some(ClipKind::Text)
        } else if s == "rich_text"@ {
            Some(ClipKind::RichText)
        } else if s == "link"@ {
            Some(ClipKind::Link)
        } else if s == "color"@ {
            Some(ClipKind::Color)
        } else if s == "image"@ {
            Some(ClipKind::Image)
        } else if s == "file"@ {
            Some(ClipKind::File)
        } else {
            None
        }
    }

    pub fn as_str(self) -> (res: &'static str)
        ensures
            res@ == self.name(),
    {
        match self {
            ClipKind::Text => "text",
            ClipKind::RichText => "rich_text",
            ClipKind::Link => "link",
            ClipKind::Color => "color",
            ClipKind::Image => "image",
            ClipKind::File => "file",
        }
    }

    pub fn parse(s: &str) -> (res: Option<Self>)
        ensures
            res == ClipKind::named(s@),
    {
        if same(s, "text") {
            Some(ClipKind::Text)
        } else if same(s, "rich_text") {
            Some(ClipKind::RichText)
        } else if same(s, "link") {
            Some(ClipKind::Link)
        } else if same(s, "color") {
            Some(ClipKind::Color)
        } else if same(s, "image") {
            Some(ClipKind::Image)
        } else if same(s, "file") {
            Some(ClipKind::File)
        } else {
            None
        }
    }
}

/// A stored name reads back as the kind it was written for.
pub proof fn law_kind_names_read_back(kind: ClipKind)
    ensures
        ClipKind::named(kind.name()) == Some(kind),
{
    reveal_strlit("text");
    reveal_strlit("rich_text");
    reveal_strlit("link");
    reveal_strlit("color");
    reveal_strlit("image");
    reveal_strlit("file");
    let n = kind.name();
    assert("text"@[0] == 't');
    assert("rich_text"@[0] == 'r');
    assert("link"@[0] == 'l');
    assert("color"@[0] == 'c');
    assert("image"@[0] == 'i');
    assert("file"@[0] == 'f');
}

/// A clip as it arrives from a platform clipboard backend, before the store
/// assigns it an id or decides whether it is a duplicate.
#[derive(Debug)]
pub struct NewClip {
    pub kind: ClipKind,
    pub mime: String,
    /// Searchable, human-readable representation. Always set for text-ish
    /// kinds; for images it may hold a filename later on.
    pub text: Option<String>,
    /// Raw payload for binary kinds. Text kinds leave this empty.
    pub bytes: Option<Vec<u8>>,
    pub source_app: Option<String>,
    pub source_bundle_id: Option<String>,
    /// Set when the OS marked the pasteboard item as transient or concealed
    /// (password fields, one-time codes). Concealed clips are never stored.
    pub concealed: bool,
}

/// The content of a [`NewClip`].
pub struct NewClipView {
    pub kind: ClipKind,
    pub mime: Seq<char>,
    pub text: Option<Seq<char>>,
    pub bytes: Option<Seq<u8>>,
    pub source_app: Option<Seq<char>>,
    pub source_bundle_id: Option<Seq<char>>,
    pub concealed: bool,
}

impl View for NewClip {
    type V = NewClipView;

    open spec fn view(&self) -> NewClipView {
        NewClipView {
            kind: self.kind,
            mime: self.mime@,
            text: opt_text(self.text),
            bytes: opt_bytes(self.bytes),
            source_app: opt_text(self.source_app),
            source_bundle_id: opt_text(self.source_bundle_id),
            concealed: self.concealed,
        }
    }
}

/// The content of an optional clip.
pub open spec fn opt_clip(clip: Option<NewClip>) -> Option<NewClipView> {
    match clip {
        Some(c) => Some(c@),
        None => None,
    }
}

impl Clone for NewClip {
    fn clone(&self) -> (res: Self)
        ensures
            res@ == self@,
    {
        NewClip {
            kind: self.kind,
            mime: self.mime.clone(),
            text: copy_opt_text(&self.text),
            bytes: copy_opt_bytes(&self.bytes),
            source_app: copy_opt_text(&self.source_app),
            source_bundle_id: copy_opt_text(&self.source_bundle_id),
            concealed: self.concealed,
        }
    }
}

impl NewClipView {
    /// A text clip with the kind its content suggests.
    pub open spec fn text(body: Seq<char>) -> NewClipView {
        NewClipView {
            kind: text_kind(body),
            mime: "text/plain"@,
            text: Some(body),
            bytes: None,
            source_app: None,
            source_bundle_id: None,
            concealed: false,
        }
    }

    /// An image clip.
    pub open spec fn image(bytes: Seq<u8>, mime: Seq<char>) -> NewClipView {
        NewClipView {
            kind: ClipKind::Image,
            mime,
            text: None,
            bytes: Some(bytes),
            source_app: None,
            source_bundle_id: None,
            concealed: false,
        }
    }

    /// The bytes the content digest covers: mime, kind, text and payload, each
    /// but the last closed by a zero byte.
    pub open spec fn preimage(self) -> Seq<u8> {
        let text = match self.text {
            Some(t) => encode_utf8(t),
            None => Seq::empty(),
        };
        let bytes = match self.bytes {
            Some(b) => b,
            None => Seq::empty(),
        };
        encode_utf8(self.mime) + seq![0u8] + encode_utf8(self.kind.name()) + seq![0u8] + text
            + seq![0u8] + bytes
    }

    /// The content digest.
    pub open spec fn digest(self) -> Seq<char> {
        blake3_hex(self.preimage())
    }

    /// Length of the text in UTF-8 plus length of the payload.
    pub open spec fn byte_len(self) -> nat {
        let text = match self.text {
            Some(t) => encode_utf8(t).len(),
            None => 0,
        };
        let bytes = match self.bytes {
            Some(b) => b.len(),
            None => 0,
        };
        text + bytes
    }

    /// Nothing worth storing: no payload, and no text beyond whitespace.
    pub open spec fn is_empty(self) -> bool {
        &&& match self.text {
            Some(t) => is_blank(t),
            None => true,
        }
        &&& match self.bytes {
            Some(b) => b.len() == 0,
            None => true,
        }
    }
}

impl NewClip {
    /// Build a text clip, inferring a more specific kind from the content.
    pub fn text(body: &str) -> (res: Self)
        ensures
            res@ == NewClipView::text(body@),
    {
        let kind = infer_text_kind(body);
        NewClip {
            kind,
            mime: owned("text/plain"),
            text: Some(owned(body)),
            bytes: None,
            source_app: None,
            source_bundle_id: None,
            concealed: false,
        }
    }

    /// Build an image clip from raw encoded image bytes.
    pub fn image(bytes: Vec<u8>, mime: &str) -> (res: Self)
        ensures
            res@ == NewClipView::image(bytes@, mime@),
    {
        NewClip {
            kind: ClipKind::Image,
            mime: owned(mime),
            text: None,
            bytes: Some(bytes),
            source_app: None,
            source_bundle_id: None,
            concealed: false,
        }
    }

    pub fn with_source(self, app: Option<String>, bundle_id: Option<String>) -> (res: Self)
        ensures
            res@ == (NewClipView {
                source_app: opt_text(app),
                source_bundle_id: opt_text(bundle_id),
                ..self@
            }),
    {
        let mut clip = self;
        clip.source_app = app;
        clip.source_bundle_id = bundle_id;
        clip
    }

    pub fn concealed(self, concealed: bool) -> (res: Self)
        ensures
            res@ == (NewClipView { concealed, ..self@ }),
    {
        let mut clip = self;
        clip.concealed = concealed;
        clip
    }

    /// Content-addressed digest used for deduplication. Deliberately covers
    /// only the payload, mime and kind, not the source app or timestamps, so the
    /// same text copied twice from different apps collapses into one row.
    pub fn digest(&self) -> (res: String)
        ensures
            res@ == self@.digest(),
    {
        let mut data: Vec<u8> = Vec::new();
        append_bytes(&mut data, self.mime.as_str().as_bytes());
        data.push(0);
        append_bytes(&mut data, self.kind.as_str().as_bytes());
        data.push(0);
        if let Some(text) = &self.text {
            append_bytes(&mut data, text.as_str().as_bytes());
        }
        data.push(0);
        if let Some(bytes) = &self.bytes {
            append_bytes(&mut data, bytes.as_slice());
        }
        assert(data@ == self@.preimage());
        blake3_hash_hex(&data)
    }

    /// Bytes of text and payload together. No clip that fits in memory reaches
    /// the largest `usize`, which is where the sum would stop.
    pub fn byte_len(&self) -> (res: usize)
        ensures
            res == (if self@.byte_len() <= usize::MAX {
                self@.byte_len()
            } else {
                usize::MAX as nat
            }),
    {
        let text: usize = match &self.text {
            Some(t) => t.as_str().as_bytes().len(),
            None => 0,
        };
        let bytes: usize = match &self.bytes {
            Some(b) => b.len(),
            None => 0,
        };
        text.saturating_add(bytes)
    }

    /// True when there is nothing worth storing: no payload, or text that is
    /// entirely whitespace.
    pub fn is_empty(&self) -> (res: bool)
        ensures
            res == self@.is_empty(),
    {
        let text_empty = match &self.text {
            Some(t) => {
                let v = chars_of(t.as_str());
                proof {
                    lemma_trim_blank(v@);
                }
                trim_chars(&v).len() == 0
            },
            None => true,
        };
        let bytes_empty = match &self.bytes {
            Some(b) => b.len() == 0,
            None => true,
        };
        text_empty && bytes_empty
    }
}

/// A stored clip.
#[derive(Debug, PartialEq)]
pub struct Clip {
    pub id: i64,
    pub kind: ClipKind,
    pub mime: String,
    pub text: Option<String>,
    /// List queries leave it empty so that scrolling a long history never
    /// pulls image blobs.
    pub bytes: Option<Vec<u8>>,
    pub byte_len: i64,
    pub source_app: Option<String>,
    pub source_bundle_id: Option<String>,
    pub hash: String,
    pub created_at: i64,
    pub last_used_at: i64,
    pub use_count: i64,
    pub pinned: bool,
}

/// The content of a [`Clip`].
pub struct ClipView {
    pub id: i64,
    pub kind: ClipKind,
    pub mime: Seq<char>,
    pub text: Option<Seq<char>>,
    pub bytes: Option<Seq<u8>>,
    pub byte_len: i64,
    pub source_app: Option<Seq<char>>,
    pub source_bundle_id: Option<Seq<char>>,
    pub hash: Seq<char>,
    pub created_at: i64,
    pub last_used_at: i64,
    pub use_count: i64,
    pub pinned: bool,
}

impl View for Clip {
    type V = ClipView;

    open spec fn view(&self) -> ClipView {
        ClipView {
            id: self.id,
            kind: self.kind,
            mime: self.mime@,
            text: opt_text(self.text),
            bytes: opt_bytes(self.bytes),
            byte_len: self.byte_len,
            source_app: opt_text(self.source_app),
            source_bundle_id: opt_text(self.source_bundle_id),
            hash: self.hash@,
            created_at: self.created_at,
            last_used_at: self.last_used_at,
            use_count: self.use_count,
            pinned: self.pinned,
        }
    }
}

impl Clone for Clip {
    fn clone(&self) -> (res: Self)
        ensures
            res@ == self@,
    {
        Clip {
            id: self.id,
            kind: self.kind,
            mime: self.mime.clone(),
            text: copy_opt_text(&self.text),
            bytes: copy_opt_bytes(&self.bytes),
            byte_len: self.byte_len,
            source_app: copy_opt_text(&self.source_app),
            source_bundle_id: copy_opt_text(&self.source_bundle_id),
            hash: self.hash.clone(),
            created_at: self.created_at,
            last_used_at: self.last_used_at,
            use_count: self.use_count,
            pinned: self.pinned,
        }
    }
}

/// The contents of a list of clips.
pub open spec fn clip_views(clips: Seq<Clip>) -> Seq<ClipView> {
    clips.map_values(|c: Clip| c@)
}

impl ClipView {
    /// What a preview shows before it is cut: the words of the text, or the kind
    /// and size of a clip without text.
    pub open spec fn label(self) -> Seq<char> {
        match self.text {
            Some(t) => joined(words(t), seq![' ']),
            None => (if self.kind == ClipKind::Image {
                "Image"@
            } else {
                self.kind.name()
            }) + " ("@ + decimal(self.byte_len as int) + " bytes)"@,
        }
    }

    /// The preview, cut to a number of characters.
    pub open spec fn preview(self, max_chars: nat) -> Seq<char> {
        truncated(self.label(), max_chars)
    }
}

/// The text itself where it fits, else its beginning and an ellipsis.
pub open spec fn truncated(s: Seq<char>, max_chars: nat) -> Seq<char> {
    if s.len() <= max_chars {
        s
    } else {
        s.take(if max_chars == 0 {
            0
        } else {
            max_chars - 1
        }).push('\u{2026}')
    }
}

/// A timestamp in RFC 3339, or in decimal seconds where that has no date for it.
pub open spec fn time_label(secs: i64) -> Seq<char> {
    match rfc3339(secs) {
        Some(s) => s,
        None => decimal(secs as int),
    }
}

impl Clip {
    /// A single-line preview, collapsed and truncated for list rendering.
    pub fn preview(&self, max_chars: usize) -> (res: String)
        ensures
            res@ == self@.preview(max_chars as nat),
    {
        let raw: Vec<char> = match &self.text {
            Some(t) => {
                let v = chars_of(t.as_str());
                let w = split_words(&v);
                let mut sep: Vec<char> = Vec::new();
                sep.push(' ');
                assert(sep@ == seq![' ']);
                join_chars(&w, &sep)
            },
            None => {
                let mut out = if self.kind == ClipKind::Image {
                    chars_of("Image")
                } else {
                    chars_of(self.kind.as_str())
                };
                append_chars(&mut out, &chars_of(" ("));
                append_chars(&mut out, &signed_chars(self.byte_len));
                append_chars(&mut out, &chars_of(" bytes)"));
                out
            },
        };
        let cut = truncate_chars(&raw, max_chars);
        string_of(&cut)
    }

    pub fn created_at_rfc3339(&self) -> (res: String)
        ensures
            res@ == time_label(self.created_at),
    {
        format_unix(self.created_at)
    }

    pub fn last_used_at_rfc3339(&self) -> (res: String)
        ensures
            res@ == time_label(self.last_used_at),
    {
        format_unix(self.last_used_at)
    }
}

fn format_unix(secs: i64) -> (res: String)
    ensures
        res@ == time_label(secs),
{
    let dated = format_rfc3339(secs);
    time_or_seconds(dated, secs)
}

/// The formatted date where there is one, else the seconds in decimal.
pub fn time_or_seconds(dated: Option<String>, secs: i64) -> (res: String)
    ensures
        res@ == (match opt_text(dated) {
            Some(s) => s,
            None => decimal(secs as int),
        }),
{
    match dated {
        Some(s) => s,
        None => {
            let v = signed_chars(secs);
            string_of(&v)
        },
    }
}

fn truncate_chars(s: &Vec<char>, max_chars: usize) -> (res: Vec<char>)
    ensures
        res@ == truncated(s@, max_chars as nat),
{
    if s.len() <= max_chars {
        return slice_chars(s, 0, s.len());
    }
    let keep: usize = if max_chars == 0 {
        0
    } else {
        max_chars - 1
    };
    let mut out = slice_chars(s, 0, keep);
    out.push('\u{2026}');
    out
}

// ---- kind inference ----------------------------------------------------

/// A single word that is a known scheme and more.
pub open spec fn is_url_text(s: Seq<char>) -> bool {
    &&& words(s).len() == 1
    &&& {
        ||| extends(s, "https://"@)
        ||| extends(s, "http://"@)
        ||| extends(s, "ftp://"@)
        ||| extends(s, "ssh://"@)
        ||| extends(s, "mailto:"@)
    }
}

/// Whether `s` is `scheme` followed by at least one character.
pub open spec fn extends(s: Seq<char>, scheme: Seq<char>) -> bool {
    s.len() > scheme.len() && has_prefix(s, scheme)
}

/// A hash sign and 3, 4, 6 or 8 hexadecimal digits, or a CSS colour function.
pub open spec fn is_color_text(s: Seq<char>) -> bool {
    if s.len() > 0 && s[0] == '#' {
        &&& (s.len() == 4 || s.len() == 5 || s.len() == 7 || s.len() == 9)
        &&& forall|i: int| 1 <= i < s.len() ==> is_hex(#[trigger] s[i])
    } else {
        &&& {
            ||| has_prefix(lowered(s), "rgb("@)
            ||| has_prefix(lowered(s), "rgba("@)
            ||| has_prefix(lowered(s), "hsl("@)
            ||| has_prefix(lowered(s), "hsla("@)
        }
        &&& s.last() == ')'
    }
}

/// The most specific kind that the trimmed text unambiguously has.
pub open spec fn text_kind(body: Seq<char>) -> ClipKind {
    let s = trim(body);
    if s.len() == 0 {
        ClipKind::Text
    } else if is_url_text(s) {
        ClipKind::Link
    } else if is_color_text(s) {
        ClipKind::Color
    } else {
        ClipKind::Text
    }
}

/// Promote plain text to a more specific kind when the shape is unambiguous.
fn infer_text_kind(body: &str) -> (res: ClipKind)
    ensures
        res == text_kind(body@),
{
    let v = chars_of(body);
    let trimmed = trim_chars(&v);
    if trimmed.len() == 0 {
        return ClipKind::Text;
    }
    if is_url(&trimmed) {
        return ClipKind::Link;
    }
    if is_color(&trimmed) {
        return ClipKind::Color;
    }
    ClipKind::Text
}

fn is_url(s: &Vec<char>) -> (res: bool)
    ensures
        res == is_url_text(s@),
{
    let w = split_words(s);
    if w.len() != 1 {
        return false;
    }
    goes_beyond(s, "https://") || goes_beyond(s, "http://") || goes_beyond(s, "ftp://")
        || goes_beyond(s, "ssh://") || goes_beyond(s, "mailto:")
}

fn goes_beyond(s: &Vec<char>, scheme: &str) -> (res: bool)
    ensures
        res == extends(s@, scheme@),
{
    let p = chars_of(scheme);
    s.len() > p.len() && starts_with(s, scheme)
}

fn is_color(s: &Vec<char>) -> (res: bool)
    ensures
        res == is_color_text(s@),
{
    if s.len() > 0 && s[0] == '#' {
        return (s.len() == 4 || s.len() == 5 || s.len() == 7 || s.len() == 9) && all_hex(s, 1);
    }
    let l = lower_chars(s);
    let opens = starts_with(&l, "rgb(") || starts_with(&l, "rgba(") || starts_with(&l, "hsl(")
        || starts_with(&l, "hsla(");
    proof {
        reveal_strlit("rgb(");
        reveal_strlit("rgba(");
        reveal_strlit("hsl(");
        reveal_strlit("hsla(");
    }
    opens && s[s.len() - 1] == ')'
}

} // verus!
