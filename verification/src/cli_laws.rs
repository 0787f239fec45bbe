//! How what the user types is read and how numbers are shown.

use vstd::prelude::*;
use crate::cli::{
    bytes_text, duration_text, in_53_bits, kind_named, left_aligned, nearest, rendered, requests,
    right_aligned, spacing, Command,
};
use crate::clip::{ClipKind, ClipView};
use crate::protocol::{Request, ResponseView};
use crate::text::{decimal, digit, digits, is_blank, is_white, lower, lowered, strs_view};
use crate::text_laws::{law_trim_strips_the_ends, lemma_shown};

verus! {

/// A kind may be spelled in either case, with dashes for underscores, and with
/// blanks around it.
pub proof fn law_kinds_may_be_spelled_freely(
    kind: ClipKind,
    lead: Seq<char>,
    spelled: Seq<char>,
    trail: Seq<char>,
)
    requires
        is_blank(lead),
        is_blank(trail),
        spelled.len() == kind.name().len(),
        forall|i: int|
            0 <= i < spelled.len() ==> ({
                let want = kind.name()[i];
                let got = #[trigger] spelled[i];
                got == want || (want == '_' && got == '-') || ('a' <= want <= 'z' && got as u32 + 32
                    == want as u32)
            }),
    ensures
        kind_named(lead + spelled + trail) == Some(kind),
{
    reveal_strlit("text");
    reveal_strlit("rich_text");
    reveal_strlit("link");
    reveal_strlit("color");
    reveal_strlit("image");
    reveal_strlit("file");
    let name = kind.name();
    assert forall|i: int| 0 <= i < name.len() implies ('a' <= #[trigger] name[i] <= 'z' || name[i]
        == '_') by {}
    assert forall|i: int| 0 <= i < spelled.len() implies !is_white(#[trigger] spelled[i]) by {
        let want = name[i];
    }
    law_trim_strips_the_ends(lead, spelled, trail);
    let read = crate::cli::underscored(lowered(spelled));
    assert forall|i: int| 0 <= i < spelled.len() implies #[trigger] read[i] == name[i] by {
        let want = name[i];
        let got = spelled[i];
        assert(lowered(spelled)[i] == lower(got));
        if got != want && !(want == '_' && got == '-') {
            assert('A' <= got <= 'Z');
            assert(lower(got) as u32 == got as u32 + 32);
            assert(lower(got) == want);
        }
    }
    assert(read =~= name);
    crate::clip::law_kind_names_read_back(kind);
}

/// A search is for the words as they were typed: one word alone, and each further
/// word behind the others and a blank.
pub proof fn law_search_is_for_the_words(
    query: Vec<String>,
    fewer: Vec<String>,
    limit: usize,
    req: Request,
    before: Request,
)
    requires
        requests(Command::Search { query, limit }, req),
        requests(Command::Search { query: fewer, limit }, before),
        query@.len() == fewer@.len() + 1,
        forall|i: int| 0 <= i < fewer@.len() ==> (#[trigger] query@[i])@ == fewer@[i]@,
    ensures
        req matches Request::Search { query: asked, limit: l } && before matches Request::Search {
            query: asked_before,
            limit: _,
        } && l == limit && asked@ == (if fewer@.len() == 0 {
            query@[0]@
        } else {
            asked_before@ + seq![' '] + query@[fewer@.len() as int]@
        }),
{
    let parts = strs_view(query@);
    assert(parts.drop_last() =~= strs_view(fewer@));
    assert(parts.last() == query@[fewer@.len() as int]@);
}

// ---- output ------------------------------------------------------------

/// `get` prints the clip's text and a newline, and nothing else, so that it can be
/// piped.
pub proof fn law_get_prints_the_text_alone(id: i64, clip: ClipView)
    requires
        clip.text is Some,
    ensures
        ({
            let shown = rendered(Command::Get { id }, ResponseView::Clip { clip });
            &&& shown.out == clip.text->0.push('\n')
            &&& shown.err.len() == 0
            &&& !shown.failed
        }),
{
    reveal_strlit("\n");
    assert(clip.text->0 + "\n"@ =~= clip.text->0.push('\n'));
}

/// An error is printed to standard error, message included, and nothing to standard
/// output.
pub proof fn law_errors_are_shown(command: Command, message: Seq<char>)
    ensures
        ({
            let shown = rendered(command, ResponseView::Error { message });
            &&& shown.failed
            &&& shown.out.len() == 0
            &&& crate::text::has_part(shown.err, message)
        }),
{
    let shown = rendered(command, ResponseView::Error { message });
    crate::text_laws::law_part_occurs(shown.err, message);
    assert("Error: "@ + message + "\n"@ == shown.err);
}

/// Alignment adds blanks on one side, up to the width, and cuts nothing.
pub proof fn law_alignment_only_adds_blanks(s: Seq<char>, width: nat)
    ensures
        ({
            let w: nat = if s.len() < width {
                width
            } else {
                s.len()
            };
            let r = right_aligned(s, width);
            let l = left_aligned(s, width);
            &&& r.len() == w
            &&& l.len() == w
            &&& r.skip(w - s.len()) == s
            &&& l.take(s.len() as int) == s
            &&& forall|i: int| 0 <= i < w - s.len() ==> #[trigger] r[i] == ' '
            &&& forall|i: int| s.len() <= i < w ==> #[trigger] l[i] == ' '
        }),
{
    let w: nat = if s.len() < width {
        width
    } else {
        s.len()
    };
    assert(right_aligned(s, width).skip(w - s.len()) =~= s);
    assert(left_aligned(s, width).take(s.len() as int) =~= s);
}

/// A line of a clip table begins with a star exactly where the clip is pinned, and
/// ends the line.
pub proof fn law_pinned_clips_are_starred(clip: ClipView, width: nat)
    ensures
        crate::cli::clip_line(clip, width)[0] == if clip.pinned {
            '*'
        } else {
            ' '
        },
        crate::cli::clip_line(clip, width).last() == '\n',
{
    reveal_strlit("*");
    reveal_strlit(" ");
    reveal_strlit("\n");
}

/// A table has one line for each clip, in order.
pub proof fn law_table_grows_by_a_line(clips: Seq<ClipView>, clip: ClipView, width: nat)
    ensures
        crate::cli::clip_lines(clips.push(clip), width) == crate::cli::clip_lines(clips, width)
            + crate::cli::clip_line(clip, width),
        crate::cli::clip_lines(Seq::<ClipView>::empty(), width).len() == 0,
{
    assert(clips.push(clip).drop_last() =~= clips);
}

/// The id column is as wide as the widest id, so that ids line up.
pub proof fn law_ids_line_up(clips: Seq<ClipView>, i: int)
    requires
        0 <= i < clips.len(),
    ensures
        crate::cli::id_width(clips) >= decimal(clips[i].id as int).len(),
        crate::cli::id_width(clips) >= 2,
    decreases clips.len(),
{
    if clips.len() > 0 {
        if i < clips.len() - 1 {
            assert(clips.drop_last()[i] == clips[i]);
            law_ids_line_up(clips.drop_last(), i);
        } else if clips.len() > 1 {
            law_ids_line_up(clips.drop_last(), 0);
        }
    }
}

// ---- numbers -----------------------------------------------------------

/// A duration is shown in its two largest units, rounded down to the smaller: what
/// is shown is not more than what it stands for, and less than one smaller unit
/// short of it.
pub proof fn law_durations_round_down(secs: u64)
    ensures
        secs < 60 ==> duration_text(secs) == digits(secs as nat) + "s"@,
        60 <= secs < 3600 ==> exists|m: nat, s: nat|
            m >= 1 && s < 60 && m * 60 + s == secs && duration_text(secs) == #[trigger] digits(m)
                + "m "@ + #[trigger] digits(s) + "s"@,
        3600 <= secs < 86_400 ==> exists|h: nat, m: nat|
            h >= 1 && m < 60 && h * 3600 + m * 60 <= secs < h * 3600 + (m + 1) * 60
                && duration_text(secs) == #[trigger] digits(h) + "h "@ + #[trigger] digits(m)
                + "m"@,
        86_400 <= secs ==> exists|d: nat, h: nat|
            d >= 1 && h < 24 && d * 86_400 + h * 3600 <= secs < d * 86_400 + (h + 1) * 3600
                && duration_text(secs) == #[trigger] digits(d) + "d "@ + #[trigger] digits(h)
                + "h"@,
{
    if 60 <= secs < 3600 {
        let m = (secs / 60) as nat;
        let s = (secs % 60) as nat;
        assert(duration_text(secs) == digits(m) + "m "@ + digits(s) + "s"@);
    } else if 3600 <= secs < 86_400 {
        let h = (secs / 3600) as nat;
        let m = ((secs % 3600) / 60) as nat;
        assert(duration_text(secs) == digits(h) + "h "@ + digits(m) + "m"@);
    } else if 86_400 <= secs {
        let d = (secs / 86_400) as nat;
        let h = ((secs % 86_400) / 3600) as nat;
        assert(duration_text(secs) == digits(d) + "d "@ + digits(h) + "h"@);
    }
}

/// Rounding to the nearest is off by at most a half.
pub proof fn law_rounding_is_to_the_nearest(n: nat, d: nat)
    requires
        d > 0,
    ensures
        2 * (nearest(n, d) * d - n) <= d,
        2 * (n - nearest(n, d) * d) <= d,
        n % d == 0 ==> nearest(n, d) * d == n,
{
    let q = n / d;
    let r = n % d;
    vstd::arithmetic::div_mod::lemma_fundamental_div_mod(n as int, d as int);
    assert(d * q == q * d) by (nonlinear_arith);
    assert((q + 1) * d == q * d + d) by (nonlinear_arith);
}

/// A number of bytes is shown as it is below a kibibyte and else in the largest
/// binary unit that it fills, rounded to the nearest tenth, for gibibytes to the
/// nearest hundredth.
pub proof fn law_byte_counts_are_scaled(bytes: i64)
    ensures
        bytes < 1024 ==> bytes_text(bytes) == decimal(bytes as int) + " B"@,
        1024 <= bytes < 1_048_576 ==> exists|t: nat|
            is_tenths(bytes as nat, 1024, t) && bytes_text(bytes) == #[trigger] tenths_text(t)
                + " KiB"@,
        1_048_576 <= bytes < 1_073_741_824 ==> exists|t: nat|
            is_tenths(bytes as nat, 1_048_576, t) && bytes_text(bytes) == #[trigger] tenths_text(t)
                + " MiB"@,
        1_073_741_824 <= bytes < 0x20_0000_0000_0000 ==> exists|t: nat|
            is_hundredths(bytes as nat, 1_073_741_824, t) && bytes_text(bytes)
                == #[trigger] hundredths_text(t) + " GiB"@,
{
    let n = bytes as nat;
    if 1024 <= bytes < 1_048_576 {
        let t = nearest(n * 10, 1024);
        law_rounding_is_to_the_nearest(n * 10, 1024);
        assert(bytes_text(bytes) == tenths_text(t) + " KiB"@);
    } else if 1_048_576 <= bytes < 1_073_741_824 {
        let t = nearest(n * 10, 1_048_576);
        law_rounding_is_to_the_nearest(n * 10, 1_048_576);
        assert(bytes_text(bytes) == tenths_text(t) + " MiB"@);
    } else if 1_073_741_824 <= bytes < 0x20_0000_0000_0000 {
        assert(spacing(n) == 1);
        assert(nearest(n, 1) == n);
        assert(in_53_bits(n) == n);
        let t = nearest(n * 100, 1_073_741_824);
        law_rounding_is_to_the_nearest(n * 100, 1_073_741_824);
        assert(bytes_text(bytes) == hundredths_text(t) + " GiB"@);
    }
}

/// Whether a number of tenths of a unit is the nearest to a number of bytes.
pub open spec fn is_tenths(n: nat, unit: nat, t: nat) -> bool {
    2 * (t * unit - n * 10) <= unit && 2 * (n * 10 - t * unit) <= unit
}

/// Whether a number of hundredths of a unit is the nearest to a number of bytes.
pub open spec fn is_hundredths(n: nat, unit: nat, t: nat) -> bool {
    2 * (t * unit - n * 100) <= unit && 2 * (n * 100 - t * unit) <= unit
}

/// A number of tenths with a decimal point.
pub open spec fn tenths_text(t: nat) -> Seq<char> {
    digits(t / 10) + "."@ + seq![digit(t % 10)]
}

/// A number of hundredths with a decimal point.
pub open spec fn hundredths_text(t: nat) -> Seq<char> {
    digits(t / 100) + "."@ + seq![digit(t / 10 % 10)] + seq![digit(t % 10)]
}

/// Rounding goes to the even of two that are equally near.
pub proof fn law_ties_go_to_the_even(n: nat, d: nat)
    requires
        d > 0,
        2 * (n % d) == d,
    ensures
        nearest(n, d) % 2 == 0,
{
}

/// Up to two to the 53rd every number is held exactly; beyond, the spacing of the
/// numbers that are held is a power of two, and what is held is the nearest.
pub proof fn law_large_numbers_are_rounded(n: nat)
    ensures
        n < 0x20_0000_0000_0000 ==> in_53_bits(n) == n,
        spacing(n) >= 1,
        n >= 0x20_0000_0000_0000 ==> spacing(n) == 2 * spacing(n / 2),
        2 * (in_53_bits(n) - n) <= spacing(n),
        2 * (n - in_53_bits(n)) <= spacing(n),
    decreases n,
{
    if n >= 0x20_0000_0000_0000 {
        law_large_numbers_are_rounded(n / 2);
    }
    law_rounding_is_to_the_nearest(n, spacing(n));
}

/// A name that spells no kind is no kind.
pub proof fn law_other_names_are_no_kind(s: Seq<char>, kind: ClipKind)
    requires
        kind_named(s) == Some(kind),
    ensures
        ({
            let spelled = crate::text::trim(s);
            &&& spelled.len() == kind.name().len()
            &&& forall|i: int|
                0 <= i < spelled.len() ==> ({
                    let want = kind.name()[i];
                    let got = #[trigger] spelled[i];
                    got == want || (want == '_' && got == '-') || ('a' <= want <= 'z' && got as u32
                        + 32 == want as u32)
                })
        }),
{
    let spelled = crate::text::trim(s);
    let read = crate::cli::underscored(lowered(spelled));
    crate::kind_laws::law_kinds_have_one_name_each(read, kind);
    assert(read.len() == spelled.len());
    assert forall|i: int| 0 <= i < spelled.len() implies ({
        let want = kind.name()[i];
        let got = #[trigger] spelled[i];
        got == want || (want == '_' && got == '-') || ('a' <= want <= 'z' && got as u32 + 32
            == want as u32)
    }) by {
        let got = spelled[i];
        assert(read[i] == kind.name()[i]);
        assert(lowered(spelled)[i] == lower(got));
        if 'A' <= got <= 'Z' {
            assert(lower(got) as u32 == got as u32 + 32);
        }
    }
}

/// Listing without a kind asks for every kind, a board listing for every pinboard,
/// and the commands without arguments for what they say.
pub proof fn law_plain_commands_ask_plainly(
    limit: usize,
    offset: usize,
    list: Request,
    boards: Request,
    capture: Request,
)
    requires
        requests(Command::List { limit, offset, kind: None }, list),
        requests(Command::Board(crate::cli::BoardCommand::List), boards),
        requests(Command::Capture, capture),
    ensures
        list == (Request::List { limit, offset, kind: None }),
        boards == Request::Pinboards,
        capture == Request::CaptureNow,
{
}

/// A line of a clip table shows the id, the kind and a preview of the clip.
pub proof fn law_table_lines_show_the_clip(clip: ClipView, width: nat)
    ensures
        ({
            let line = crate::cli::clip_line(clip, width);
            &&& crate::text::has_part(line, right_aligned(decimal(clip.id as int), width))
            &&& crate::text::has_part(line, left_aligned(clip.kind.name(), 10))
            &&& crate::text::has_part(line, clip.preview(72))
        }),
{
    let star = if clip.pinned {
        "*"@
    } else {
        " "@
    };
    let id = right_aligned(decimal(clip.id as int), width);
    let kind = left_aligned(clip.kind.name(), 10);
    let line = crate::cli::clip_line(clip, width);
    lemma_shown(star, id, "  "@ + kind + "  "@ + clip.preview(72) + "\n"@, line);
    lemma_shown(star + id + "  "@, kind, "  "@ + clip.preview(72) + "\n"@, line);
    lemma_shown(star + id + "  "@ + kind + "  "@, clip.preview(72), "\n"@, line);
}

/// The id column is no wider than it must be.
pub proof fn law_id_column_is_no_wider(clips: Seq<ClipView>)
    ensures
        crate::cli::id_width(clips) == 2 || exists|i: int|
            0 <= i < clips.len() && crate::cli::id_width(clips) == decimal(
                (#[trigger] clips[i]).id as int,
            ).len(),
    decreases clips.len(),
{
    if clips.len() > 0 {
        let head = clips.drop_last();
        law_id_column_is_no_wider(head);
        let w = crate::cli::id_width(clips);
        if w == decimal(clips[clips.len() - 1].id as int).len() {
        } else if crate::cli::id_width(head) != 2 {
            let i = choose|i: int|
                0 <= i < head.len() && crate::cli::id_width(head) == decimal(
                    (#[trigger] head[i]).id as int,
                ).len();
            assert(clips[i] == head[i]);
        }
    }
}

/// A line of the pinboard list begins with the name and shows how many clips there
/// are, in the singular for one.
pub proof fn law_board_lines_show_the_count(board: crate::store::PinboardView)
    ensures
        ({
            let line = crate::cli::board_line(board);
            &&& crate::text::has_prefix(line, board.name)
            &&& board.clip_count == 1 ==> crate::text::has_part(line, " 1 clip\n"@)
            &&& board.clip_count != 1 ==> crate::text::has_part(
                line,
                seq![' '] + decimal(board.clip_count as int) + " clips\n"@,
            )
        }),
{
    let n = decimal(board.clip_count as int);
    let name = left_aligned(board.name, 24);
    let line = crate::cli::board_line(board);
    reveal_strlit(" ");
    reveal_strlit("clip");
    reveal_strlit("clips");
    reveal_strlit("\n");
    reveal_strlit(" clips\n");
    reveal_strlit(" 1 clip\n");
    law_alignment_only_adds_blanks(board.name, 24);
    assert(board.name + line.skip(board.name.len() as int) =~= line) by {
        assert forall|i: int| 0 <= i < board.name.len() implies line[i] == board.name[i] by {
            assert(name[i] == name.take(board.name.len() as int)[i]);
        }
    }
    crate::text_laws::law_prefix_begins(line, board.name);
    if board.clip_count == 1 {
        assert(digits(1) =~= seq!['1']) by {
            assert(digit(1) as u32 == 49);
        }
        assert(" 1 clip\n"@ =~= seq![' '] + n + " "@ + "clip"@ + "\n"@);
        lemma_shown(name, " 1 clip\n"@, Seq::empty(), line);
    } else {
        assert(" clips\n"@ =~= " "@ + "clips"@ + "\n"@);
        lemma_shown(name, seq![' '] + n + " clips\n"@, Seq::empty(), line);
    }
}

/// A reply that names a clip says which, and one that counts says how many.
pub proof fn law_replies_name_the_clip(id: i64, clip: ClipView, count: usize, yes: bool, all: bool)
    ensures
        crate::text::has_part(
            rendered(Command::Copy { id }, ResponseView::Clip { clip }).out,
            decimal(clip.id as int),
        ),
        crate::text::has_part(
            rendered(Command::Copy { id }, ResponseView::Clip { clip }).out,
            clip.preview(60),
        ),
        crate::text::has_part(
            rendered(Command::Capture, ResponseView::Clip { clip }).out,
            decimal(clip.id as int),
        ),
        crate::text::has_part(
            rendered(Command::Pin { id }, ResponseView::Clip { clip }).out,
            decimal(clip.id as int),
        ),
        crate::text::has_part(
            rendered(Command::Unpin { id }, ResponseView::Clip { clip }).out,
            decimal(clip.id as int),
        ),
        crate::text::has_part(
            rendered(Command::Clear { all, yes }, ResponseView::Count { count }).out,
            digits(count as nat),
        ),
        crate::text::has_part(
            rendered(Command::Prune, ResponseView::Count { count }).out,
            digits(count as nat),
        ),
{
    let n = decimal(clip.id as int);
    let p = clip.preview(60);
    let copy = rendered(Command::Copy { id }, ResponseView::Clip { clip }).out;
    lemma_shown("Copied clip "@, n, ": "@ + p + "\n"@, copy);
    lemma_shown("Copied clip "@ + n + ": "@, p, "\n"@, copy);
    lemma_shown(
        "Captured clip "@,
        n,
        ": "@ + p + "\n"@,
        rendered(Command::Capture, ResponseView::Clip { clip }).out,
    );
    lemma_shown(
        "Pinned clip "@,
        n,
        "\n"@,
        rendered(Command::Pin { id }, ResponseView::Clip { clip }).out,
    );
    lemma_shown(
        "Unpinned clip "@,
        n,
        "\n"@,
        rendered(Command::Unpin { id }, ResponseView::Clip { clip }).out,
    );
    lemma_shown(
        "Deleted "@,
        digits(count as nat),
        " clips.\n"@,
        rendered(Command::Clear { all, yes }, ResponseView::Count { count }).out,
    );
    lemma_shown(
        "Pruned "@,
        digits(count as nat),
        " clips.\n"@,
        rendered(Command::Prune, ResponseView::Count { count }).out,
    );
}

/// A payload is printed as it came, a list of clips as a table of all of them.
pub proof fn law_replies_show_their_content(
    command: Command,
    base64: Seq<char>,
    clips: Seq<ClipView>,
)
    requires
        clips.len() > 0,
    ensures
        rendered(command, ResponseView::Bytes { base64: Some(base64) }).out == base64.push('\n'),
        rendered(command, ResponseView::Clips { clips }).out == crate::cli::clip_lines(
            clips,
            crate::cli::id_width(clips),
        ),
{
    reveal_strlit("\n");
    assert(base64 + "\n"@ =~= base64.push('\n'));
}

/// The status shows each of its values beside what it is.
pub proof fn law_status_shows_its_values(report: crate::protocol::StatusView)
    ensures
        ({
            let shown = crate::cli::status_text(report);
            let counts = "\n  clips          "@ + decimal(report.stats.total_clips as int) + " ("@
                + decimal(report.stats.pinned_clips as int) + " pinned)\n  pinboards      "@
                + decimal(report.stats.pinboards as int);
            let how = if report.stats.full_text_search {
                "full-text"@
            } else {
                "substring"@
            };
            &&& crate::text::has_part(shown, report.version)
            &&& crate::text::has_part(shown, "\n  backend        "@ + report.backend)
            &&& crate::text::has_part(
                shown,
                "\n  uptime         "@ + duration_text(report.uptime_secs),
            )
            &&& crate::text::has_part(
                shown,
                "\n  poll interval  "@ + digits(report.poll_interval_ms as nat),
            )
            &&& crate::text::has_part(shown, "data dir       "@ + report.data_dir)
            &&& crate::text::has_part(shown, counts)
            &&& crate::text::has_part(
                shown,
                "\n  stored         "@ + bytes_text(report.stats.total_bytes),
            )
            &&& crate::text::has_part(shown, "\n  search         "@ + how)
        }),
{
    let shown = crate::cli::status_text(report);
    let how = if report.stats.full_text_search {
        "full-text"@
    } else {
        "substring"@
    };
    let up = duration_text(report.uptime_secs);
    let pause = digits(report.poll_interval_ms as nat);
    let clips = decimal(report.stats.total_clips as int);
    let pinned = decimal(report.stats.pinned_clips as int);
    let boards = decimal(report.stats.pinboards as int);
    let size = bytes_text(report.stats.total_bytes);
    let a0 = "Pasteport "@ + report.version;
    let a2 = a0 + "\n  backend        "@ + report.backend;
    let a4 = a2 + "\n  uptime         "@ + up;
    let a6 = a4 + "\n  poll interval  "@ + pause;
    let a8 = a6 + " ms\n  data dir       "@ + report.data_dir;
    let a14 = a8 + "\n  clips          "@ + clips + " ("@ + pinned
        + " pinned)\n  pinboards      "@ + boards;
    let a16 = a14 + "\n  stored         "@ + size;
    let a18 = a16 + "\n  search         "@ + how;
    assert(shown == a18 + "\n"@);
    lemma_begins(a18, "\n"@, shown);
    lemma_labelled(a16, "\n  search         "@, how, a18, shown);
    lemma_labelled(a14, "\n  stored         "@, size, a16, shown);
    let counts = "\n  clips          "@ + clips + " ("@ + pinned + " pinned)\n  pinboards      "@
        + boards;
    assert(a8 + counts =~= a14) by {
        let x = a8 + "\n  clips          "@;
        let y = x + clips;
        let z = y + " ("@;
        let w = z + pinned;
        let q = w + " pinned)\n  pinboards      "@;
        let l = "\n  clips          "@;
        assert(a8 + (l + clips) =~= y);
        assert(a8 + (l + clips + " ("@) =~= z);
        assert(a8 + (l + clips + " ("@ + pinned) =~= w);
        assert(a8 + (l + clips + " ("@ + pinned + " pinned)\n  pinboards      "@) =~= q);
    }
    lemma_begins(a8, counts, shown);
    lemma_ends(a8, counts, a14, shown);
    lemma_labelled(a6, " ms\n  data dir       "@, report.data_dir, a8, shown);
    lemma_labelled(a4, "\n  poll interval  "@, pause, a6, shown);
    lemma_labelled(a2, "\n  uptime         "@, up, a4, shown);
    lemma_labelled(a0, "\n  backend        "@, report.backend, a2, shown);
    lemma_ends("Pasteport "@, report.version, a0, shown);
    assert(crate::text::has_part(shown, "data dir       "@ + report.data_dir)) by {
        reveal_strlit(" ms\n  data dir       ");
        reveal_strlit("data dir       ");
        let gap = seq![' ', 'm', 's', '\n', ' ', ' '];
        assert(" ms\n  data dir       "@ =~= gap + "data dir       "@);
        assert((a6 + gap) + ("data dir       "@ + report.data_dir) =~= a8);
        lemma_ends(a6 + gap, "data dir       "@ + report.data_dir, a8, shown);
    }
}

/// A label and its value behind a beginning of a text occur together in it, and the
/// beginning is one without them too.
proof fn lemma_labelled(
    before: Seq<char>,
    label: Seq<char>,
    value: Seq<char>,
    head: Seq<char>,
    all: Seq<char>,
)
    requires
        head == before + label + value,
        crate::text::has_prefix(all, head),
    ensures
        crate::text::has_part(all, label + value),
        crate::text::has_prefix(all, before),
{
    assert(before + (label + value) =~= head);
    lemma_ends(before, label + value, head, all);
    lemma_begins(before, label + value, all);
}

/// What begins a beginning of a text begins the text.
proof fn lemma_begins(a: Seq<char>, more: Seq<char>, all: Seq<char>)
    requires
        crate::text::has_prefix(all, a + more) || a + more == all,
    ensures
        crate::text::has_prefix(all, a),
{
    let both = a + more;
    assert(all.subrange(0, a.len() as int) =~= a) by {
        assert forall|i: int| 0 <= i < both.len() implies all[i] == both[i] by {
            assert(all.subrange(0, both.len() as int)[i] == all[i]);
        }
    }
}

/// What ends a beginning of a text occurs in the text.
proof fn lemma_ends(before: Seq<char>, part: Seq<char>, head: Seq<char>, all: Seq<char>)
    requires
        before + part =~= head,
        crate::text::has_prefix(all, head),
    ensures
        crate::text::has_part(all, part),
{
    let behind = all.skip(head.len() as int);
    assert(all.subrange(0, head.len() as int) == head);
    assert(head + behind =~= all) by {
        assert forall|i: int| 0 <= i < head.len() implies all[i] == head[i] by {
            assert(all.subrange(0, head.len() as int)[i] == all[i]);
        }
    }
    lemma_shown(before, part, behind, all);
}

/// The line below a list counts the clips in it, and the pinned ones among them.
pub proof fn law_list_summary_counts(clips: Seq<ClipView>)
    requires
        clips.len() > 0,
    ensures
        ({
            let shown = crate::client::list_summary(clips);
            &&& crate::text::has_prefix(shown, digits(clips.len()) + " clips"@)
            &&& crate::text::has_part(
                shown,
                seq![' '] + digits(clips.filter(|c: ClipView| c.pinned).len()) + " pinned"@,
            )
        }),
{
    let shown = crate::client::list_summary(clips);
    let pinned = digits(clips.filter(|c: ClipView| c.pinned).len());
    reveal_strlit(" clips \u{b7} ");
    reveal_strlit(" clips");
    reveal_strlit(" pinned");
    let dot = seq![' ', '\u{b7}'];
    assert(" clips \u{b7} "@ =~= " clips"@ + dot + seq![' ']);
    assert((digits(clips.len()) + " clips"@) + (dot + seq![' '] + pinned + " pinned"@) =~= shown);
    crate::text_laws::law_prefix_begins(shown, digits(clips.len()) + " clips"@);
    lemma_shown(
        digits(clips.len()) + " clips"@ + dot,
        seq![' '] + pinned + " pinned"@,
        Seq::empty(),
        shown,
    );
}

} // verus!
