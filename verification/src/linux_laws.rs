//! What is asked of the Linux clipboard helpers, and what becomes of the answers.

use vstd::prelude::*;
use vstd::utf8::{decode_utf8, encode_utf8_decode_utf8};
use crate::clip::{text_kind, ClipKind, NewClipView};
use crate::clipboard::Payload;
use crate::linux::{
    image_mime, input_of, listed, listed_types, remembered, reported, write_command_of, LinuxTool,
    ReaderView, ReadingView, Session, Want,
};
use crate::text::{segments, trim};
use crate::text_laws::law_segments_come_apart;
use crate::trusted::lossy_utf8;

verus! {

// ---- which selection ---------------------------------------------------

/// Whether a command line has one argument directly before another.
pub open spec fn has_pair(args: Seq<Seq<char>>, first: Seq<char>, second: Seq<char>) -> bool {
    exists|k: int| 0 <= k < args.len() - 1 && #[trigger] args[k] == first && args[k + 1] == second
}

/// With `xclip`, every command runs on the clipboard selection: readings come from
/// where writes go, whatever is asked for or written. Reading commands have it
/// print, writing commands have it take input.
pub proof fn law_xclip_stays_on_the_clipboard(reader: ReaderView, payload: Payload<'_>)
    requires
        reader.tool == LinuxTool::Xclip,
    ensures
        reader.command().program == "xclip"@,
        has_pair(reader.command().args, "-selection"@, "clipboard"@),
        reader.command().args.contains("-o"@),
        !reader.command().args.contains("-i"@),
        !reader.command().args.contains("primary"@),
        write_command_of(LinuxTool::Xclip, payload).program == "xclip"@,
        has_pair(
            write_command_of(LinuxTool::Xclip, payload).args,
            "-selection"@,
            "clipboard"@,
        ),
        write_command_of(LinuxTool::Xclip, payload).args.contains("-i"@),
        payload is Text ==> !write_command_of(LinuxTool::Xclip, payload).args.contains("-o"@)
            && !write_command_of(LinuxTool::Xclip, payload).args.contains("primary"@),
{
    let read = reader.command().args;
    let write = write_command_of(LinuxTool::Xclip, payload).args;
    reveal_strlit("-selection");
    reveal_strlit("clipboard");
    reveal_strlit("primary");
    reveal_strlit("-o");
    reveal_strlit("-i");
    reveal_strlit("-t");
    reveal_strlit("TARGETS");
    reveal_strlit("image/png");
    reveal_strlit("image/jpeg");
    reveal_strlit("image/tiff");
    assert("-i"@.len() == 2 && "-o"@.len() == 2 && "-t"@.len() == 2);
    assert("-i"@[1] == 'i' && "-o"@[1] == 'o' && "-t"@[1] == 't');
    assert("primary"@.len() == 7 && "TARGETS"@.len() == 7 && "primary"@[0] == 'p' && "TARGETS"@[0]
        == 'T');
    assert(read[0] == "-selection"@ && read[1] == "clipboard"@);
    assert(write[0] == "-selection"@ && write[1] == "clipboard"@);
    match reader.want {
        Want::Types => {
            assert(read[2] == "-o"@);
        },
        Want::Image(_) => {
            assert(read[4] == "-o"@);
        },
        Want::Text { .. } => {
            assert(read[2] == "-o"@);
        },
    }
    match payload {
        Payload::Text(_) => {
            assert(write[2] == "-i"@);
        },
        Payload::Image { .. } => {
            assert(write[4] == "-i"@);
        },
    }
}

/// With `xsel`, texts are read from the clipboard and written to it.
pub proof fn law_xsel_stays_on_the_clipboard(reader: ReaderView, payload: Payload<'_>)
    requires
        reader.tool == LinuxTool::Xsel,
        reader.want is Text,
    ensures
        reader.command().program == "xsel"@,
        reader.command().args.contains("--clipboard"@),
        reader.command().args.contains("--output"@),
        !reader.command().args.contains("--input"@),
        write_command_of(LinuxTool::Xsel, payload).program == "xsel"@,
        write_command_of(LinuxTool::Xsel, payload).args.contains("--clipboard"@),
        write_command_of(LinuxTool::Xsel, payload).args.contains("--input"@),
        !write_command_of(LinuxTool::Xsel, payload).args.contains("--output"@),
{
    let read = reader.command().args;
    let write = write_command_of(LinuxTool::Xsel, payload).args;
    reveal_strlit("--clipboard");
    reveal_strlit("--output");
    reveal_strlit("--input");
    assert("--clipboard"@.len() == 11 && "--output"@.len() == 8 && "--input"@.len() == 7);
    assert(read[0] == "--clipboard"@ && read[1] == "--output"@);
    assert(write[0] == "--clipboard"@ && write[1] == "--input"@);
}

/// With `wl-clipboard`, reading and writing are two programs, neither of which is
/// ever sent to the primary selection. Texts are read as they are, with no newline
/// added, and written without an option.
pub proof fn law_wayland_stays_on_the_clipboard(reader: ReaderView, payload: Payload<'_>)
    requires
        reader.tool == LinuxTool::WlClipboard,
    ensures
        reader.command().program == "wl-paste"@,
        !reader.command().args.contains("--primary"@),
        reader.want is Text ==> reader.command().args.contains("--no-newline"@),
        reader.want == Want::Types ==> reader.command().args.contains("--list-types"@),
        write_command_of(LinuxTool::WlClipboard, payload).program == "wl-copy"@,
        payload is Text ==> write_command_of(LinuxTool::WlClipboard, payload).args.len() == 0,
        payload is Image ==> write_command_of(LinuxTool::WlClipboard, payload).args.len() == 2,
{
    let read = reader.command().args;
    reveal_strlit("--primary");
    reveal_strlit("--type");
    reveal_strlit("--no-newline");
    reveal_strlit("--list-types");
    reveal_strlit("text/plain;charset=utf-8");
    reveal_strlit("image/png");
    reveal_strlit("image/jpeg");
    reveal_strlit("image/tiff");
    assert("image/png"@[0] == 'i' && "image/jpeg"@[0] == 'i' && "image/tiff"@[0] == 'i');
    assert("--primary"@[0] == '-' && "text/plain;charset=utf-8"@[0] == 't');
    assert("--primary"@.len() == 9 && "--type"@.len() == 6 && "--no-newline"@.len() == 12
        && "--list-types"@.len() == 12);
    match reader.want {
        Want::Types => {
            assert(read[0] == "--list-types"@);
        },
        Want::Image(_) => {
            assert(read[0] == "--type"@);
        },
        Want::Text { .. } => {
            assert(read[0] == "--no-newline"@);
        },
    }
}

/// An image is written under its own type, and read under the type asked for.
pub proof fn law_images_travel_under_their_type(reader: ReaderView, payload: Payload<'_>, i: usize)
    requires
        reader.want == Want::Image(i),
        payload is Image,
        reader.tool != LinuxTool::Xsel,
    ensures
        ({
            let flag = if reader.tool == LinuxTool::Xclip {
                "-t"@
            } else {
                "--type"@
            };
            &&& has_pair(reader.command().args, flag, image_mime(i as int))
            &&& has_pair(write_command_of(reader.tool, payload).args, flag, payload->mime@)
        }),
{
    let read = reader.command().args;
    let write = write_command_of(reader.tool, payload).args;
    if reader.tool == LinuxTool::Xclip {
        assert(read[2] == "-t"@ && read[3] == image_mime(i as int));
        assert(write[2] == "-t"@ && write[3] == payload->mime@);
    } else {
        assert(read[0] == "--type"@ && read[1] == image_mime(i as int));
        assert(write[0] == "--type"@ && write[1] == payload->mime@);
    }
}

/// What a helper is handed is the payload itself: the bytes of an image, and bytes
/// that read as the text.
pub proof fn law_input_is_the_payload(payload: Payload<'_>)
    ensures
        payload matches Payload::Text(text) ==> decode_utf8(input_of(payload)) == text@,
        payload matches Payload::Image { bytes, mime } ==> input_of(payload) == bytes@,
{
    if let Payload::Text(text) = payload {
        encode_utf8_decode_utf8(text@);
    }
}

// ---- which helper ------------------------------------------------------

/// The helper that fits the session comes first, every helper is considered, and
/// `xclip`, which has images, comes before `xsel`, which has none.
pub proof fn law_session_type_decides(session: Session)
    ensures
        session.preference().len() == 3,
        session.wayland ==> session.preference()[0] == LinuxTool::WlClipboard,
        !session.wayland ==> session.preference()[0] == LinuxTool::Xclip,
        !session.wayland ==> session.preference()[2] == LinuxTool::WlClipboard,
        forall|tool: LinuxTool| #[trigger] session.preference().contains(tool),
        session.preference().index_of(LinuxTool::Xclip) < session.preference().index_of(
            LinuxTool::Xsel,
        ),
        session.offers_tool(LinuxTool::WlClipboard) <==> session.wl_paste && session.wl_copy,
        session.offers_tool(LinuxTool::Xclip) <==> session.xclip,
        session.offers_tool(LinuxTool::Xsel) <==> session.xsel,
{
    let order = session.preference();
    assert forall|tool: LinuxTool| #[trigger] order.contains(tool) by {
        match tool {
            LinuxTool::WlClipboard => {
                assert(order[if session.wayland {
                    0
                } else {
                    2
                }] == tool);
            },
            LinuxTool::Xclip => {
                assert(order[if session.wayland {
                    1
                } else {
                    0
                }] == tool);
            },
            LinuxTool::Xsel => {
                assert(order[if session.wayland {
                    2
                } else {
                    1
                }] == tool);
            },
        }
    }
    assert(order.contains(LinuxTool::Xclip) && order.contains(LinuxTool::Xsel));
    let a = order.index_of(LinuxTool::Xclip);
    let b = order.index_of(LinuxTool::Xsel);
    assert(order[a] == LinuxTool::Xclip && order[b] == LinuxTool::Xsel);
    assert(order[0] != LinuxTool::Xsel);
}

// ---- reading -----------------------------------------------------------

/// Whether a reading goes on by asking for an image of some type.
pub open spec fn asks_for_image(reading: ReadingView, mime: Seq<char>) -> bool {
    reading matches ReadingView::More(next) && next.want matches Want::Image(i) && image_mime(
        i as int,
    ) == mime
}

/// Types on offer that say an item must not be kept.
pub open spec fn says_keep_out(types: Seq<Seq<char>>) -> bool {
    ||| types.contains("org.nspasteboard.ConcealedType"@)
    ||| types.contains("org.nspasteboard.TransientType"@)
    ||| types.contains("x-kde-passwordManagerHint"@)
}

/// The types on offer decide: what must not be kept is not read at all; else an
/// image is asked for where there is one, PNG before JPEG before TIFF; else the
/// text, as a list of files where it is one.
pub proof fn law_offered_types_decide(reader: ReaderView, out: Option<Seq<u8>>)
    requires
        reader.want == Want::Types,
        reader.tool != LinuxTool::Xsel,
    ensures
        ({
            let types = listed_types(out);
            let next = reader.answered(out);
            let open = !says_keep_out(types);
            let png = types.contains("image/png"@);
            let jpeg = types.contains("image/jpeg"@);
            let tiff = types.contains("image/tiff"@);
            &&& !open ==> (next matches ReadingView::Done(Some(clip)) && clip.concealed
                && clip.text is None && clip.bytes is None)
            &&& open ==> (next matches ReadingView::More(r) && r.types == types && r.tool
                == reader.tool)
            &&& open && png ==> asks_for_image(next, "image/png"@)
            &&& open && !png && jpeg ==> asks_for_image(next, "image/jpeg"@)
            &&& open && !png && !jpeg && tiff ==> asks_for_image(next, "image/tiff"@)
            &&& open && !png && !jpeg && !tiff ==> next->More_0.want == (Want::Text {
                files: types.contains("text/uri-list"@),
                plain: false,
            })
        }),
{
    let types = listed_types(out);
    let r = ReaderView { types, ..reader };
    lemma_contains(types, "image/png"@);
    lemma_contains(types, "image/jpeg"@);
    lemma_contains(types, "image/tiff"@);
    lemma_contains(types, "text/uri-list"@);
    lemma_keep_out(types);
    reveal_with_fuel(ReaderView::past_images, 5);
}

proof fn lemma_contains(types: Seq<Seq<char>>, name: Seq<char>)
    ensures
        crate::clipboard::offers(types, name) <==> types.contains(name),
{
    if types.contains(name) {
        let i = types.index_of(name);
        assert(types[i] == name);
    }
}

/// What marks an item as not to be kept is any of three types.
pub proof fn lemma_keep_out(types: Seq<Seq<char>>)
    ensures
        crate::clipboard::marked_concealed(types) <==> says_keep_out(types),
{
    if says_keep_out(types) {
        let name = if types.contains("org.nspasteboard.ConcealedType"@) {
            "org.nspasteboard.ConcealedType"@
        } else if types.contains("org.nspasteboard.TransientType"@) {
            "org.nspasteboard.TransientType"@
        } else {
            "x-kde-passwordManagerHint"@
        };
        let i = types.index_of(name);
        assert(crate::clipboard::is_marker(types[i]));
    }
    if crate::clipboard::marked_concealed(types) {
        let i = choose|i: int|
            0 <= i < types.len() && crate::clipboard::is_marker(#[trigger] types[i]);
        assert(types.contains(types[i]));
    }
}

/// A first reading asks for the types, except with `xsel`, which knows only text.
pub proof fn law_reading_begins_with_the_types(tool: LinuxTool)
    ensures
        tool != LinuxTool::Xsel ==> ReaderView::start(tool).want == Want::Types,
        tool == LinuxTool::Xsel ==> ReaderView::start(tool).want == (Want::Text {
            files: false,
            plain: false,
        }),
        ReaderView::start(tool).tool == tool,
        ReaderView::start(tool).types.len() == 0,
{
}

/// An image that comes is the clip, byte for byte, under the type asked for; where
/// none comes the reading goes on without it.
pub proof fn law_image_that_comes_is_the_clip(reader: ReaderView, out: Option<Seq<u8>>, i: usize)
    requires
        reader.want == Want::Image(i),
        i < 3,
    ensures
        match out {
            Some(bytes) => if bytes.len() > 0 {
                reader.answered(out) matches ReadingView::Done(Some(clip)) && clip.bytes == Some(
                    bytes,
                ) && clip.text is None && clip.kind == ClipKind::Image && clip.mime == image_mime(
                    i as int,
                ) && !clip.concealed
            } else {
                reader.answered(out) is More
            },
            None => reader.answered(out) is More,
        },
        reader.answered(out) matches ReadingView::More(next) ==> next.types == reader.types
            && (next.want matches Want::Image(j) ==> j > i) && !(next.want is Types),
{
    reveal_with_fuel(ReaderView::past_images, 5);
}

/// A text that comes is the clip's text. It is a list of files where one was asked
/// for, rich text where that was on offer, and else of the kind that it looks like.
pub proof fn law_text_that_comes_is_the_clip(
    reader: ReaderView,
    bytes: Seq<u8>,
    files: bool,
    plain: bool,
)
    requires
        reader.want == (Want::Text { files, plain }),
        bytes.len() > 0,
    ensures
        reader.answered(Some(bytes)) matches ReadingView::Done(Some(clip)) && {
            let text = lossy_utf8(bytes);
            let rich = reader.types.contains("text/html"@);
            &&& clip.text == Some(text)
            &&& clip.bytes is None
            &&& !clip.concealed
            &&& files ==> clip.kind == ClipKind::File && clip.mime == "text/uri-list"@
            &&& !files && rich ==> clip.kind == ClipKind::RichText && clip.mime == "text/html"@
            &&& !files && !rich ==> clip.kind == text_kind(text) && clip.mime == "text/plain"@
        },
{
    lemma_contains(reader.types, "text/html"@);
}

/// Where no text comes, a list of files is given up for plain text, `wl-paste` is
/// asked once more without a type where it failed, and else there is nothing.
pub proof fn law_missing_text_is_nothing(
    reader: ReaderView,
    out: Option<Seq<u8>>,
    files: bool,
    plain: bool,
)
    requires
        reader.want == (Want::Text { files, plain }),
        out matches Some(bytes) ==> bytes.len() == 0,
    ensures
        ({
            let again = out is None && !plain && reader.tool == LinuxTool::WlClipboard;
            let next = reader.answered(out);
            &&& again ==> next == ReadingView::More(
                ReaderView { want: Want::Text { files, plain: true }, ..reader },
            )
            &&& !again && files ==> next == ReadingView::More(
                ReaderView { want: Want::Text { files: false, plain: false }, ..reader },
            )
            &&& !again && !files ==> next == ReadingView::Done(None)
        }),
{
}

/// The types on offer are listed one to a line, blanks around them and empty lines
/// aside, in order.
pub proof fn law_types_are_listed_by_line(line: Seq<char>, rest: Seq<char>)
    requires
        !line.contains('\n'),
    ensures
        listed(line.push('\n') + rest) == (if trim(line).len() > 0 {
            seq![trim(line)]
        } else {
            Seq::empty()
        }) + listed(rest),
        listed(line) == (if trim(line).len() > 0 {
            seq![trim(line)]
        } else {
            Seq::empty()
        }),
{
    law_segments_come_apart(line, '\n', rest);
    let cut = |l: Seq<char>| trim(l);
    let full = |l: Seq<char>| l.len() > 0;
    let tail = segments(rest, '\n');
    assert((seq![line] + tail).map_values(cut) =~= seq![trim(line)] + tail.map_values(cut));
    assert(seq![line].map_values(cut) =~= seq![trim(line)]);
    Seq::filter_distributes_over_add(seq![trim(line)], tail.map_values(cut), full);
    reveal(Seq::filter);
    let one = seq![trim(line)];
    assert(one.drop_last() =~= Seq::<Seq<char>>::empty());
    assert(one.drop_last().filter(full) =~= Seq::<Seq<char>>::empty());
    assert(one.last() == trim(line));
    assert(one.filter(full) =~= if trim(line).len() > 0 {
        one
    } else {
        Seq::empty()
    });
}

/// Contents that differ in digest from what was seen last are reported as they are,
/// and what was read is what is remembered.
pub proof fn law_changes_are_reported(seen: Option<Seq<char>>, now: NewClipView)
    ensures
        seen != Some(now.digest()) ==> reported(seen, Some(now)) == Some(now),
        seen == Some(now.digest()) ==> reported(seen, Some(now)) is None,
        remembered(Some(now)) == Some(now.digest()),
        remembered(None) is None,
        reported(remembered(Some(now)), Some(now)) is None,
{
}

} // verus!
