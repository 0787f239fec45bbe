//! The macOS pasteboard: which representation of an item to take, and what it
//! becomes. Talking to the pasteboard is left to the caller.

use vstd::prelude::*;
use crate::clip::{opt_clip, ClipKind, NewClip, NewClipView};
use crate::clipboard::{
    concealed_clip, concealed_placeholder, has_type, is_concealed, marked_concealed, offers, Payload,
};
use crate::text::{owned, same, strs_view};
use crate::view::{opt_bytes, opt_text};

verus! {

pub const TYPE_UTF8: &'static str = "public.utf8-plain-text";

pub const TYPE_RTF: &'static str = "public.rtf";

pub const TYPE_PNG: &'static str = "public.png";

pub const TYPE_TIFF: &'static str = "public.tiff";

pub const TYPE_FILE_URL: &'static str = "public.file-url";

/// The pasteboard type an image of some MIME type is written under.
pub fn mime_to_pasteboard_type(mime: &str) -> (res: &'static str)
    ensures
        res@ == if mime@ == "image/tiff"@ {
            TYPE_TIFF@
        } else {
            TYPE_PNG@
        },
{
    if same(mime, "image/tiff") {
        TYPE_TIFF
    } else {
        TYPE_PNG
    }
}

/// The pasteboard type a payload is written under.
pub fn write_type(payload: Payload<'_>) -> (res: &'static str)
    ensures
        res@ == match payload {
            Payload::Text(_) => TYPE_UTF8@,
            Payload::Image { mime, .. } => if mime@ == "image/tiff"@ {
                TYPE_TIFF@
            } else {
                TYPE_PNG@
            },
        },
{
    match payload {
        Payload::Text(_) => TYPE_UTF8,
        Payload::Image { mime, .. } => mime_to_pasteboard_type(mime),
    }
}

/// Change tracking for the general pasteboard.
#[derive(Debug)]
pub struct MacOsClipboard {
    /// The pasteboard's change count as of the last poll. Comparing it is a
    /// single integer read, so idling costs almost nothing.
    last_change_count: i64,
}

impl MacOsClipboard {
    /// The change count last seen.
    pub closed spec fn seen(&self) -> i64 {
        self.last_change_count
    }

    /// Starts with the current count, so whatever happens to be on the clipboard
    /// at startup is not captured as if the user just copied it.
    pub fn new(current: i64) -> (res: Self)
        ensures
            res.seen() == current,
    {
        MacOsClipboard { last_change_count: current }
    }

    /// Whether the pasteboard is to be read, given its present count.
    pub fn poll(&mut self, current: i64) -> (res: bool)
        ensures
            res == (current != old(self).seen()),
            final(self).seen() == current,
    {
        let changed = current != self.last_change_count;
        self.last_change_count = current;
        changed
    }

    /// Takes note of a count, so that the next poll does not report the change:
    /// after reading on demand and after a write of our own.
    pub fn absorb(&mut self, current: i64)
        ensures
            final(self).seen() == current,
    {
        self.last_change_count = current;
    }
}

/// The representation to ask the pasteboard for.
#[derive(Debug, Clone, Copy, PartialEq, Eq, Structural)]
pub enum PasteWant {
    FileUrl,
    Png,
    Tiff,
    Text,
}

/// A reading under way.
#[derive(Debug)]
pub struct PasteReader {
    pub types: Vec<String>,
    pub app: Option<String>,
    pub bundle_id: Option<String>,
    pub want: PasteWant,
}

/// The content of a [`PasteReader`].
#[verifier::ext_equal]
pub struct PasteReaderView {
    pub types: Seq<Seq<char>>,
    pub app: Option<Seq<char>>,
    pub bundle_id: Option<Seq<char>>,
    pub want: PasteWant,
}

impl View for PasteReader {
    type V = PasteReaderView;

    open spec fn view(&self) -> PasteReaderView {
        PasteReaderView {
            types: strs_view(self.types@),
            app: opt_text(self.app),
            bundle_id: opt_text(self.bundle_id),
            want: self.want,
        }
    }
}

/// How far a reading is: another question, or the clip that was found.
#[derive(Debug)]
pub enum PasteReading {
    More(PasteReader),
    Done(Option<NewClip>),
}

/// The content of a [`PasteReading`].
pub enum PasteReadingView {
    More(PasteReaderView),
    Done(Option<NewClipView>),
}

impl View for PasteReading {
    type V = PasteReadingView;

    open spec fn view(&self) -> PasteReadingView {
        match self {
            PasteReading::More(reader) => PasteReadingView::More(reader@),
            PasteReading::Done(clip) => PasteReadingView::Done(opt_clip(*clip)),
        }
    }
}

impl PasteReaderView {
    /// The same reading with another question.
    pub open spec fn asking(self, want: PasteWant) -> PasteReadingView {
        PasteReadingView::More(PasteReaderView { want, ..self })
    }

    /// A clip with the application it was copied from.
    pub open spec fn sourced(self, clip: NewClipView) -> NewClipView {
        NewClipView { source_app: self.app, source_bundle_id: self.bundle_id, ..clip }
    }

    /// Where a reading begins. The do-not-archive markers are looked at before
    /// any payload; file references come first, since they also carry a text
    /// representation and the path is the more useful thing to remember.
    pub open spec fn begun(self) -> PasteReadingView {
        if marked_concealed(self.types) {
            PasteReadingView::Done(Some(self.sourced(concealed_clip())))
        } else if offers(self.types, TYPE_FILE_URL@) {
            self.asking(PasteWant::FileUrl)
        } else {
            self.past_files()
        }
    }

    /// Where a reading goes on without a file reference.
    pub open spec fn past_files(self) -> PasteReadingView {
        if offers(self.types, TYPE_PNG@) {
            self.asking(PasteWant::Png)
        } else if offers(self.types, TYPE_TIFF@) {
            self.asking(PasteWant::Tiff)
        } else {
            self.asking(PasteWant::Text)
        }
    }

    /// Where a string for a type leads.
    pub open spec fn given_text(self, text: Option<Seq<char>>) -> PasteReadingView {
        match (self.want, text) {
            (PasteWant::FileUrl, Some(url)) => PasteReadingView::Done(
                Some(
                    self.sourced(
                        NewClipView {
                            kind: ClipKind::File,
                            mime: "text/uri-list"@,
                            ..NewClipView::text(url)
                        },
                    ),
                ),
            ),
            (PasteWant::FileUrl, None) => self.past_files(),
            (_, Some(t)) => PasteReadingView::Done(
                Some(
                    self.sourced(
                        if offers(self.types, TYPE_RTF@) {
                            NewClipView {
                                kind: ClipKind::RichText,
                                mime: "text/rtf"@,
                                ..NewClipView::text(t)
                            }
                        } else {
                            NewClipView::text(t)
                        },
                    ),
                ),
            ),
            (_, None) => PasteReadingView::Done(None),
        }
    }

    /// Where the data for a type leads. Empty data counts as none.
    pub open spec fn given_data(self, data: Option<Seq<u8>>) -> PasteReadingView {
        match data {
            Some(bytes) => if bytes.len() == 0 {
                self.asking(PasteWant::Text)
            } else {
                PasteReadingView::Done(
                    Some(
                        self.sourced(
                            NewClipView::image(
                                bytes,
                                if self.want == PasteWant::Png {
                                    "image/png"@
                                } else {
                                    "image/tiff"@
                                },
                            ),
                        ),
                    ),
                )
            },
            None => self.asking(PasteWant::Text),
        }
    }
}

/// Starts reading an item that offers some types, copied from some application.
pub fn begin_reading(types: Vec<String>, app: Option<String>, bundle_id: Option<String>) -> (res:
    PasteReading)
    ensures
        res@ == (PasteReaderView {
            types: strs_view(types@),
            app: opt_text(app),
            bundle_id: opt_text(bundle_id),
            want: PasteWant::Text,
        }).begun(),
{
    let reader = PasteReader { types, app, bundle_id, want: PasteWant::Text };
    if is_concealed(&reader.types) {
        let clip = concealed_placeholder().with_source(reader.app, reader.bundle_id);
        return PasteReading::Done(Some(clip));
    }
    if has_type(&reader.types, TYPE_FILE_URL) {
        return PasteReading::More(PasteReader { want: PasteWant::FileUrl, ..reader });
    }
    reader.past_files()
}

impl PasteReader {
    /// The pasteboard type to ask for.
    pub fn wanted_type(&self) -> (res: &'static str)
        ensures
            res@ == match self.want {
                PasteWant::FileUrl => TYPE_FILE_URL@,
                PasteWant::Png => TYPE_PNG@,
                PasteWant::Tiff => TYPE_TIFF@,
                PasteWant::Text => TYPE_UTF8@,
            },
    {
        match self.want {
            PasteWant::FileUrl => TYPE_FILE_URL,
            PasteWant::Png => TYPE_PNG,
            PasteWant::Tiff => TYPE_TIFF,
            PasteWant::Text => TYPE_UTF8,
        }
    }

    fn past_files(self) -> (res: PasteReading)
        ensures
            res@ == self@.past_files(),
    {
        let want = if has_type(&self.types, TYPE_PNG) {
            PasteWant::Png
        } else if has_type(&self.types, TYPE_TIFF) {
            PasteWant::Tiff
        } else {
            PasteWant::Text
        };
        PasteReading::More(PasteReader { want, ..self })
    }

    /// Where a string for the wanted type leads.
    pub fn give_text(self, text: Option<String>) -> (res: PasteReading)
        requires
            self.want == PasteWant::FileUrl || self.want == PasteWant::Text,
        ensures
            res@ == self@.given_text(opt_text(text)),
    {
        match (self.want, text) {
            (PasteWant::FileUrl, Some(url)) => {
                let mut clip = NewClip::text(url.as_str());
                clip.kind = ClipKind::File;
                clip.mime = owned("text/uri-list");
                PasteReading::Done(Some(clip.with_source(self.app, self.bundle_id)))
            },
            (PasteWant::FileUrl, None) => self.past_files(),
            (_, Some(t)) => {
                let mut clip = NewClip::text(t.as_str());
                // Keep rich text flagged so a user interface can offer "paste
                // with formatting", while still storing the plain text for
                // search.
                if has_type(&self.types, TYPE_RTF) {
                    clip.kind = ClipKind::RichText;
                    clip.mime = owned("text/rtf");
                }
                PasteReading::Done(Some(clip.with_source(self.app, self.bundle_id)))
            },
            (_, None) => PasteReading::Done(None),
        }
    }

    /// Where the data for the wanted image type leads.
    pub fn give_data(self, data: Option<Vec<u8>>) -> (res: PasteReading)
        requires
            self.want == PasteWant::Png || self.want == PasteWant::Tiff,
        ensures
            res@ == self@.given_data(opt_bytes(data)),
    {
        match data {
            Some(bytes) => if bytes.len() == 0 {
                PasteReading::More(PasteReader { want: PasteWant::Text, ..self })
            } else {
                let mime = if self.want == PasteWant::Png {
                    "image/png"
                } else {
                    "image/tiff"
                };
                let clip = NewClip::image(bytes, mime);
                PasteReading::Done(Some(clip.with_source(self.app, self.bundle_id)))
            },
            None => PasteReading::More(PasteReader { want: PasteWant::Text, ..self }),
        }
    }
}

/// An item that its types mark as concealed is asked for no representation: the
/// reading ends at once with a clip that carries no payload.
pub proof fn law_concealed_item_is_not_read(reader: PasteReaderView)
    requires
        marked_concealed(reader.types),
    ensures
        reader.begun() matches PasteReadingView::Done(Some(clip)) && clip.concealed && clip.text
            is None && clip.bytes is None,
{
}

} // verus!
