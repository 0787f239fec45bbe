//! What is asked of the macOS pasteboard, and what becomes of the answers.

use vstd::prelude::*;
use crate::clip::{text_kind, ClipKind};
use crate::linux_laws::{lemma_keep_out, says_keep_out};
use crate::macos::{PasteReaderView, PasteReadingView, PasteWant};

verus! {

proof fn lemma_contains(types: Seq<Seq<char>>, name: Seq<char>)
    ensures
        crate::clipboard::offers(types, name) <==> types.contains(name),
{
    if types.contains(name) {
        let i = types.index_of(name);
        assert(types[i] == name);
    }
}

/// The types on offer decide: what must not be kept is not read at all; else a file
/// reference is asked for where there is one, then an image, PNG before TIFF, then
/// the text.
pub proof fn law_offered_types_decide(reader: PasteReaderView)
    ensures
        ({
            let types = reader.types;
            let next = reader.begun();
            let open = !says_keep_out(types);
            let file = types.contains("public.file-url"@);
            let png = types.contains("public.png"@);
            let tiff = types.contains("public.tiff"@);
            &&& !open ==> (next matches PasteReadingView::Done(Some(clip)) && clip.concealed
                && clip.text is None && clip.bytes is None)
            &&& open ==> (next matches PasteReadingView::More(r) && r.types == types && r.app
                == reader.app && r.bundle_id == reader.bundle_id)
            &&& open && file ==> next->More_0.want == PasteWant::FileUrl
            &&& open && !file && png ==> next->More_0.want == PasteWant::Png
            &&& open && !file && !png && tiff ==> next->More_0.want == PasteWant::Tiff
            &&& open && !file && !png && !tiff ==> next->More_0.want == PasteWant::Text
        }),
{
    lemma_contains(reader.types, "public.file-url"@);
    lemma_contains(reader.types, "public.png"@);
    lemma_contains(reader.types, "public.tiff"@);
    lemma_keep_out(reader.types);
}

/// Every clip is attributed to the application it was copied from.
pub proof fn law_clips_name_their_source(
    reader: PasteReaderView,
    text: Option<Seq<char>>,
    data: Option<Seq<u8>>,
)
    ensures
        reader.begun() matches PasteReadingView::Done(Some(clip)) ==> clip.source_app == reader.app
            && clip.source_bundle_id == reader.bundle_id,
        reader.given_text(text) matches PasteReadingView::Done(Some(clip)) ==> clip.source_app
            == reader.app && clip.source_bundle_id == reader.bundle_id,
        reader.given_data(data) matches PasteReadingView::Done(Some(clip)) ==> clip.source_app
            == reader.app && clip.source_bundle_id == reader.bundle_id,
{
}

/// A string that comes is the clip's text: a file where a file reference was asked
/// for, rich text where that was on offer, and else of the kind that it looks like.
pub proof fn law_string_that_comes_is_the_clip(reader: PasteReaderView, text: Seq<char>)
    requires
        reader.want == PasteWant::FileUrl || reader.want == PasteWant::Text,
    ensures
        reader.given_text(Some(text)) matches PasteReadingView::Done(Some(clip)) && {
            let file = reader.want == PasteWant::FileUrl;
            let rich = reader.types.contains("public.rtf"@);
            &&& clip.text == Some(text)
            &&& clip.bytes is None
            &&& !clip.concealed
            &&& file ==> clip.kind == ClipKind::File && clip.mime == "text/uri-list"@
            &&& !file && rich ==> clip.kind == ClipKind::RichText && clip.mime == "text/rtf"@
            &&& !file && !rich ==> clip.kind == text_kind(text) && clip.mime == "text/plain"@
        },
{
    lemma_contains(reader.types, "public.rtf"@);
}

/// Where no file reference comes the reading goes on with an image or the text, as
/// if none had been on offer; where no text comes there is nothing.
pub proof fn law_missing_string_is_passed_over(reader: PasteReaderView)
    ensures
        ({
            let png = reader.types.contains("public.png"@);
            let tiff = reader.types.contains("public.tiff"@);
            let next = reader.given_text(None);
            &&& reader.want == PasteWant::FileUrl && png ==> next == PasteReadingView::More(
                PasteReaderView { want: PasteWant::Png, ..reader },
            )
            &&& reader.want == PasteWant::FileUrl && !png && tiff ==> next
                == PasteReadingView::More(PasteReaderView { want: PasteWant::Tiff, ..reader })
            &&& reader.want == PasteWant::FileUrl && !png && !tiff ==> next
                == PasteReadingView::More(PasteReaderView { want: PasteWant::Text, ..reader })
            &&& reader.want == PasteWant::Text ==> next == PasteReadingView::Done(None)
        }),
{
    lemma_contains(reader.types, "public.png"@);
    lemma_contains(reader.types, "public.tiff"@);
}

/// Image data that comes is the clip, byte for byte, under its type; where none
/// comes the text is asked for.
pub proof fn law_data_that_comes_is_the_clip(reader: PasteReaderView, data: Option<Seq<u8>>)
    requires
        reader.want == PasteWant::Png || reader.want == PasteWant::Tiff,
    ensures
        (data is Some && data->0.len() > 0) ==> (reader.given_data(
            data,
        ) matches PasteReadingView::Done(Some(clip)) && clip.bytes == data && clip.text is None
            && clip.kind == ClipKind::Image && !clip.concealed && (reader.want == PasteWant::Png
            ==> clip.mime == "image/png"@) && (reader.want == PasteWant::Tiff ==> clip.mime
            == "image/tiff"@)),
        !(data is Some && data->0.len() > 0) ==> reader.given_data(data) == PasteReadingView::More(
            PasteReaderView { want: PasteWant::Text, ..reader },
        ),
{
}

} // verus!
