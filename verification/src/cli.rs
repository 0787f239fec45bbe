//! The command-line client: which request a command makes, and how a reply reads.

use vstd::prelude::*;
use crate::clip::{clip_views, Clip, ClipKind, ClipView};
use crate::protocol::{Request, Response, ResponseView, StatusReport, StatusView};
use crate::store::{pinboard_views, Pinboard, PinboardView};
use crate::text::{
    append_chars, chars_of, decimal, digit, digits, join_chars, joined, lower_chars, lowered,
    same_chars, signed_chars, string_of, strs_view, trim, trim_chars, unsigned_chars,
};

verus! {

/// What the user asked for.
#[derive(Debug)]
pub enum Command {
    /// Show recent clips.
    List { limit: usize, offset: usize, kind: Option<String> },
    /// Search clip text.
    Search { query: Vec<String>, limit: usize },
    /// Print one clip's full text.
    Get { id: i64 },
    /// Put a stored clip back on the clipboard.
    Copy { id: i64 },
    /// Pin a clip so it survives pruning.
    Pin { id: i64 },
    /// Unpin a clip.
    Unpin { id: i64 },
    /// Delete one clip.
    Remove { id: i64 },
    /// Delete history.
    Clear { all: bool, yes: bool },
    /// Store whatever is on the clipboard right now.
    Capture,
    /// Apply the retention policy now.
    Prune,
    /// Daemon and history status.
    Status,
    /// Manage pinboards.
    Board(BoardCommand),
}

#[derive(Debug)]
pub enum BoardCommand {
    /// List pinboards.
    List,
    /// Create a pinboard.
    Create { name: String },
    /// Delete a pinboard. Clips themselves are kept.
    Delete { name: String },
    /// Add a clip to a pinboard.
    Add { name: String, id: i64 },
    /// Remove a clip from a pinboard.
    Remove { name: String, id: i64 },
    /// Show a pinboard's clips.
    Show { name: String, limit: usize },
}

// ---- requests ----------------------------------------------------------

/// Dashes as underscores.
pub open spec fn underscored(s: Seq<char>) -> Seq<char> {
    s.map_values(
        |c: char|
            if c == '-' {
                '_'
            } else {
                c
            },
    )
}

/// The kind that a user names.
pub open spec fn kind_named(s: Seq<char>) -> Option<ClipKind> {
    ClipKind::named(underscored(lowered(trim(s))))
}

/// Accept both `rich-text` and `rich_text`, since the command line spells it with
/// a dash and the protocol with an underscore.
pub fn parse_kind(s: &str) -> (res: Option<ClipKind>)
    ensures
        res == kind_named(s@),
{
    let low = lower_chars(&trim_chars(&chars_of(s)));
    let mut v: Vec<char> = Vec::new();
    for i in 0..low.len()
        invariant
            v@.len() == i,
            forall|j: int| 0 <= j < i ==> #[trigger] v@[j] == underscored(low@)[j],
    {
        let c = low[i];
        v.push(
            if c == '-' {
                '_'
            } else {
                c
            },
        );
    }
    assert(v@ == underscored(low@));
    let name = string_of(&v);
    ClipKind::parse(name.as_str())
}

/// Whether a request is the one that a command makes.
pub open spec fn requests(command: Command, req: Request) -> bool {
    match command {
        Command::List { limit, offset, kind } => req == (Request::List {
            limit,
            offset,
            kind: match kind {
                Some(name) => kind_named(name@),
                None => None,
            },
        }),
        Command::Search { query, limit } => req is Search && req->Search_query@ == joined(
            strs_view(query@),
            seq![' '],
        ) && req->Search_limit == limit,
        Command::Get { id } => req == (Request::Get { id }),
        Command::Copy { id } => req == (Request::Copy { id }),
        Command::Pin { id } => req == (Request::Pin { id, pinned: true }),
        Command::Unpin { id } => req == (Request::Pin { id, pinned: false }),
        Command::Remove { id } => req == (Request::Delete { id }),
        Command::Clear { all, .. } => req == (Request::Clear { include_pinned: all }),
        Command::Capture => req == Request::CaptureNow,
        Command::Prune => req == Request::Prune,
        Command::Status => req == Request::Status,
        Command::Board(BoardCommand::List) => req == Request::Pinboards,
        Command::Board(BoardCommand::Create { name }) => req is PinboardCreate
            && req->PinboardCreate_name@ == name@,
        Command::Board(BoardCommand::Delete { name }) => req is PinboardDelete
            && req->PinboardDelete_name@ == name@,
        Command::Board(BoardCommand::Add { name, id }) => req is PinboardAdd
            && req->PinboardAdd_name@ == name@ && req->PinboardAdd_id == id,
        Command::Board(BoardCommand::Remove { name, id }) => req is PinboardRemove
            && req->PinboardRemove_name@ == name@ && req->PinboardRemove_id == id,
        Command::Board(BoardCommand::Show { name, limit }) => req is PinboardClips
            && req->PinboardClips_name@ == name@ && req->PinboardClips_limit == limit,
    }
}

/// The words of a query with single spaces between them.
fn join_words(words: &Vec<String>) -> (res: String)
    ensures
        res@ == joined(strs_view(words@), seq![' ']),
{
    let mut parts: Vec<Vec<char>> = Vec::new();
    for i in 0..words.len()
        invariant
            parts@.len() == i,
            forall|j: int| 0 <= j < i ==> (#[trigger] parts@[j])@ == words@[j]@,
    {
        parts.push(chars_of(words[i].as_str()));
    }
    assert(crate::text::chars_view(parts@) == strs_view(words@));
    let mut sep: Vec<char> = Vec::new();
    sep.push(' ');
    assert(sep@ == seq![' ']);
    string_of(&join_chars(&parts, &sep))
}

pub fn build_request(command: &Command) -> (res: Request)
    ensures
        requests(*command, res),
{
    match command {
        Command::List { limit, offset, kind } => Request::List {
            limit: *limit,
            offset: *offset,
            kind: match kind {
                Some(name) => parse_kind(name.as_str()),
                None => None,
            },
        },
        Command::Search { query, limit } => Request::Search {
            query: join_words(query),
            limit: *limit,
        },
        Command::Get { id } => Request::Get { id: *id },
        Command::Copy { id } => Request::Copy { id: *id },
        Command::Pin { id } => Request::Pin { id: *id, pinned: true },
        Command::Unpin { id } => Request::Pin { id: *id, pinned: false },
        Command::Remove { id } => Request::Delete { id: *id },
        Command::Clear { all, .. } => Request::Clear { include_pinned: *all },
        Command::Capture => Request::CaptureNow,
        Command::Prune => Request::Prune,
        Command::Status => Request::Status,
        Command::Board(BoardCommand::List) => Request::Pinboards,
        Command::Board(BoardCommand::Create { name }) => Request::PinboardCreate {
            name: name.clone(),
        },
        Command::Board(BoardCommand::Delete { name }) => Request::PinboardDelete {
            name: name.clone(),
        },
        Command::Board(BoardCommand::Add { name, id }) => Request::PinboardAdd {
            name: name.clone(),
            id: *id,
        },
        Command::Board(BoardCommand::Remove { name, id }) => Request::PinboardRemove {
            name: name.clone(),
            id: *id,
        },
        Command::Board(BoardCommand::Show { name, limit }) => Request::PinboardClips {
            name: name.clone(),
            limit: *limit,
        },
    }
}

/// The question asked before history is deleted.
pub fn clear_question(all: bool) -> (res: &'static str)
    ensures
        res@ == if all {
            "Delete ALL clips, including pinned ones and pinboard contents? This cannot be undone. [y/N] "@
        } else {
            "Delete all unpinned clips? This cannot be undone. [y/N] "@
        },
{
    if all {
        "Delete ALL clips, including pinned ones and pinboard contents? This cannot be undone. [y/N] "
    } else {
        "Delete all unpinned clips? This cannot be undone. [y/N] "
    }
}

/// Whether an answer means yes.
pub fn is_yes(answer: &str) -> (res: bool)
    ensures
        res == (lowered(trim(answer@)) == "y"@ || lowered(trim(answer@)) == "yes"@),
{
    let v = lower_chars(&trim_chars(&chars_of(answer)));
    same_chars(&v, &chars_of("y")) || same_chars(&v, &chars_of("yes"))
}

// ---- numbers -----------------------------------------------------------

/// A duration in its two largest units.
pub open spec fn duration_text(secs: u64) -> Seq<char> {
    if secs < 60 {
        digits(secs as nat) + "s"@
    } else if secs < 3600 {
        digits((secs / 60) as nat) + "m "@ + digits((secs % 60) as nat) + "s"@
    } else if secs < 86_400 {
        digits((secs / 3600) as nat) + "h "@ + digits(((secs % 3600) / 60) as nat) + "m"@
    } else {
        digits((secs / 86_400) as nat) + "d "@ + digits(((secs % 86_400) / 3600) as nat) + "h"@
    }
}

fn pair(a: u64, mid: &str, b: u64, end: &str) -> (res: Vec<char>)
    ensures
        res@ == digits(a as nat) + mid@ + digits(b as nat) + end@,
{
    let mut v = unsigned_chars(a);
    append_chars(&mut v, &chars_of(mid));
    append_chars(&mut v, &unsigned_chars(b));
    append_chars(&mut v, &chars_of(end));
    v
}

pub fn format_duration(secs: u64) -> (res: String)
    ensures
        res@ == duration_text(secs),
{
    let v = if secs < 60 {
        let mut v = unsigned_chars(secs);
        append_chars(&mut v, &chars_of("s"));
        v
    } else if secs < 3600 {
        pair(secs / 60, "m ", secs % 60, "s")
    } else if secs < 86_400 {
        pair(secs / 3600, "h ", (secs % 3600) / 60, "m")
    } else {
        pair(secs / 86_400, "d ", (secs % 86_400) / 3600, "h")
    };
    string_of(&v)
}

/// The nearest integer to a quotient, the even one where two are equally near.
pub open spec fn nearest(n: nat, d: nat) -> nat {
    let q = n / d;
    let r = n % d;
    if 2 * r < d || 2 * r == d && q % 2 == 0 {
        q
    } else {
        q + 1
    }
}

/// The spacing of 53-bit binary fractions at a number of this size: one below
/// two to the 53rd, and doubling with each further doubling.
pub open spec fn spacing(n: nat) -> nat
    decreases n,
{
    if n < 0x20_0000_0000_0000 {
        1
    } else {
        2 * spacing(n / 2)
    }
}

/// The nearest number that 53 binary digits hold.
pub open spec fn in_53_bits(n: nat) -> nat {
    nearest(n, spacing(n)) * spacing(n)
}

/// A number of bytes in a unit, with a number of decimals.
pub open spec fn scaled(n: nat, unit: nat, decimals: nat) -> Seq<char> {
    if decimals == 1 {
        let t = nearest(n * 10, unit);
        digits(t / 10) + "."@ + seq![digit(t % 10)]
    } else {
        let t = nearest(n * 100, unit);
        digits(t / 100) + "."@ + seq![digit(t / 10 % 10)] + seq![digit(t % 10)]
    }
}

/// A byte count in the largest binary unit that it fills.
pub open spec fn bytes_text(bytes: i64) -> Seq<char> {
    if bytes < 1024 {
        decimal(bytes as int) + " B"@
    } else if bytes < 0x10_0000 {
        scaled(bytes as nat, 1024, 1) + " KiB"@
    } else if bytes < 0x4000_0000 {
        scaled(bytes as nat, 0x10_0000, 1) + " MiB"@
    } else {
        scaled(in_53_bits(bytes as nat), 0x4000_0000, 2) + " GiB"@
    }
}

fn round(n: u128, d: u128) -> (res: u128)
    requires
        0 < d <= 0x1_0000_0000_0000_0000,
        n <= 0x1_0000_0000_0000_0000_0000,
    ensures
        res == nearest(n as nat, d as nat),
{
    let q = n / d;
    let r = n % d;
    assert(q <= n) by (nonlinear_arith)
        requires
            q == n / d,
            d > 0,
            n >= 0,
    ;
    if 2 * r < d || (2 * r == d && q % 2 == 0) {
        q
    } else {
        q + 1
    }
}

fn spacing_at(n: u64) -> (res: u64)
    requires
        n <= i64::MAX,
    ensures
        res == spacing(n as nat),
        1 <= res <= n || res == 1,
    decreases n,
{
    if n < 0x20_0000_0000_0000 {
        1
    } else {
        let half = spacing_at(n / 2);
        2 * half
    }
}

fn digit_of(n: u128) -> (res: char)
    requires
        n < 10,
    ensures
        res == digit(n as nat),
{
    (n as u8 + 48) as char
}

fn scale(n: u128, unit: u128, decimals: u32) -> (res: Vec<char>)
    requires
        1024 <= unit <= 0x4000_0000,
        n <= 0x8000_0000_0000_0000,
        n / unit <= 0x2_0000_0000,
        decimals == 1 || decimals == 2,
    ensures
        res@ == scaled(n as nat, unit as nat, decimals as nat),
{
    if decimals == 1 {
        let t = round(n * 10, unit);
        assert(t <= n * 10 + 1) by {
            assert((n * 10) / (unit as int) <= n * 10) by (nonlinear_arith)
                requires
                    unit >= 1,
                    n >= 0,
            ;
        }
        let whole = t / 10;
        proof {
            lemma_tenth(n as int, unit as int, 10);
        }
        let mut v = unsigned_chars(whole as u64);
        append_chars(&mut v, &chars_of("."));
        v.push(digit_of(t % 10));
        assert(v@ == scaled(n as nat, unit as nat, 1)) by {
            assert(seq![digit((t % 10) as nat)] == Seq::<char>::empty().push(digit((t % 10) as nat)));
        }
        v
    } else {
        let t = round(n * 100, unit);
        proof {
            lemma_tenth(n as int, unit as int, 100);
        }
        let whole = t / 100;
        let mut v = unsigned_chars(whole as u64);
        append_chars(&mut v, &chars_of("."));
        v.push(digit_of(t / 10 % 10));
        v.push(digit_of(t % 10));
        assert(v@ == scaled(n as nat, unit as nat, 2));
        v
    }
}

/// A rounded quotient in tenths or hundredths stays small where the quotient
/// does.
proof fn lemma_tenth(n: int, unit: int, ten: int)
    requires
        n >= 0,
        unit >= 1024,
        ten == 10 || ten == 100,
        n / unit <= 0x2_0000_0000,
    ensures
        nearest((n * ten) as nat, unit as nat) <= 0x2_0000_0001 * ten + 1,
        nearest((n * ten) as nat, unit as nat) / (ten as nat) <= u64::MAX,
{
    assert(n < 0x2_0000_0001 * unit) by (nonlinear_arith)
        requires
            n / unit <= 0x2_0000_0000,
            unit >= 1,
            n >= 0,
    ;
    assert(n * ten < 0x2_0000_0001 * ten * unit) by (nonlinear_arith)
        requires
            n < 0x2_0000_0001 * unit,
            ten > 0,
    ;
    assert((n * ten) / unit < 0x2_0000_0001 * ten) by (nonlinear_arith)
        requires
            n * ten < 0x2_0000_0001 * ten * unit,
            unit >= 1,
    ;
}

pub fn format_bytes(bytes: i64) -> (res: String)
    ensures
        res@ == bytes_text(bytes),
{
    let v = if bytes < 1024 {
        let mut v = signed_chars(bytes);
        append_chars(&mut v, &chars_of(" B"));
        v
    } else if bytes < 0x10_0000 {
        let mut v = scale(bytes as u128, 1024, 1);
        append_chars(&mut v, &chars_of(" KiB"));
        v
    } else if bytes < 0x4000_0000 {
        let mut v = scale(bytes as u128, 0x10_0000, 1);
        append_chars(&mut v, &chars_of(" MiB"));
        v
    } else {
        let step = spacing_at(bytes as u64);
        let near = round(bytes as u128, step as u128);
        proof {
            lemma_in_53_bits(bytes as nat);
        }
        let held = near * step as u128;
        let mut v = scale(held, 0x4000_0000, 2);
        append_chars(&mut v, &chars_of(" GiB"));
        v
    };
    string_of(&v)
}

proof fn lemma_spacing(n: nat, limit: nat)
    requires
        n < limit,
        limit == 0x8000_0000_0000_0000 || limit == 0x4000_0000_0000_0000 || limit
            == 0x2000_0000_0000_0000 || limit == 0x1000_0000_0000_0000 || limit
            == 0x800_0000_0000_0000 || limit == 0x400_0000_0000_0000 || limit
            == 0x200_0000_0000_0000 || limit == 0x100_0000_0000_0000 || limit
            == 0x80_0000_0000_0000 || limit == 0x40_0000_0000_0000 || limit
            == 0x20_0000_0000_0000,
    ensures
        1 <= spacing(n),
        spacing(n) * 0x20_0000_0000_0000 <= limit || spacing(n) == 1,
        spacing(n) == 1 || spacing(n) == 2 || spacing(n) == 4 || spacing(n) == 8 || spacing(n) == 16
            || spacing(n) == 32 || spacing(n) == 64 || spacing(n) == 128 || spacing(n) == 256
            || spacing(n) == 512 || spacing(n) == 1024,
    decreases limit,
{
    if n >= 0x20_0000_0000_0000 {
        lemma_spacing(n / 2, limit / 2);
    }
}

/// Rounding a number below a multiple of the divisor does not exceed that
/// multiple.
proof fn lemma_nearest_below(n: nat, d: nat, k: nat)
    requires
        d >= 1,
        n < d * k,
    ensures
        nearest(n, d) * d <= d * k,
{
    assert(n / d < k) by (nonlinear_arith)
        requires
            n < d * k,
            d >= 1,
    ;
    assert(nearest(n, d) <= k);
    assert(nearest(n, d) * d <= d * k) by (nonlinear_arith)
        requires
            nearest(n, d) <= k,
    ;
}

/// Rounding to 53 bits stays within two to the 63rd.
proof fn lemma_in_53_bits(n: nat)
    requires
        n <= i64::MAX,
    ensures
        nearest(n, spacing(n)) * spacing(n) <= 0x8000_0000_0000_0000,
        spacing(n) >= 1,
        in_53_bits(n) / 0x4000_0000 <= 0x2_0000_0000,
{
    lemma_spacing(n, 0x8000_0000_0000_0000);
    let s = spacing(n);
    let k: nat = if s == 1 {
        0x8000_0000_0000_0000
    } else if s == 2 {
        0x4000_0000_0000_0000
    } else if s == 4 {
        0x2000_0000_0000_0000
    } else if s == 8 {
        0x1000_0000_0000_0000
    } else if s == 16 {
        0x800_0000_0000_0000
    } else if s == 32 {
        0x400_0000_0000_0000
    } else if s == 64 {
        0x200_0000_0000_0000
    } else if s == 128 {
        0x100_0000_0000_0000
    } else if s == 256 {
        0x80_0000_0000_0000
    } else if s == 512 {
        0x40_0000_0000_0000
    } else {
        0x20_0000_0000_0000
    };
    lemma_nearest_below(n, s, k);
}

// ---- output ------------------------------------------------------------

/// What a command prints, and whether it failed.
#[derive(Debug, PartialEq)]
pub struct Output {
    /// For standard output.
    pub out: String,
    /// For standard error.
    pub err: String,
    pub failed: bool,
}

/// The content of an [`Output`].
pub struct OutputView {
    pub out: Seq<char>,
    pub err: Seq<char>,
    pub failed: bool,
}

impl View for Output {
    type V = OutputView;

    open spec fn view(&self) -> OutputView {
        OutputView { out: self.out@, err: self.err@, failed: self.failed }
    }
}

/// A text with blanks before it, to a width.
pub open spec fn right_aligned(s: Seq<char>, width: nat) -> Seq<char> {
    if s.len() < width {
        Seq::new((width - s.len()) as nat, |i: int| ' ') + s
    } else {
        s
    }
}

/// A text with blanks behind it, to a width.
pub open spec fn left_aligned(s: Seq<char>, width: nat) -> Seq<char> {
    if s.len() < width {
        s + Seq::new((width - s.len()) as nat, |i: int| ' ')
    } else {
        s
    }
}

fn align_right(s: &Vec<char>, width: usize) -> (res: Vec<char>)
    ensures
        res@ == right_aligned(s@, width as nat),
{
    let mut v: Vec<char> = Vec::new();
    if s.len() < width {
        for i in 0..width - s.len()
            invariant
                s@.len() < width,
                v@ == Seq::new(i as nat, |i: int| ' '),
        {
            v.push(' ');
            assert(v@ == Seq::new((i + 1) as nat, |i: int| ' '));
        }
    }
    append_chars(&mut v, s);
    assert(v@ == right_aligned(s@, width as nat));
    v
}

fn align_left(s: &Vec<char>, width: usize) -> (res: Vec<char>)
    ensures
        res@ == left_aligned(s@, width as nat),
{
    let mut v: Vec<char> = Vec::new();
    append_chars(&mut v, s);
    assert(v@ == s@);
    let n = s.len();
    if n < width {
        for i in n..width
            invariant
                s@.len() == n < width,
                v@ == s@ + Seq::new((i - n) as nat, |i: int| ' '),
        {
            v.push(' ');
            assert(v@ == s@ + Seq::new((i + 1 - n) as nat, |i: int| ' '));
        }
    }
    v
}

/// The width of the id column: that of the widest id, and at least two.
pub open spec fn id_width(clips: Seq<ClipView>) -> nat
    decreases clips.len(),
{
    if clips.len() == 0 {
        2
    } else {
        let w = id_width(clips.drop_last());
        let n = decimal(clips.last().id as int).len();
        if n > w {
            n
        } else {
            w
        }
    }
}

/// One line of a clip table.
pub open spec fn clip_line(clip: ClipView, width: nat) -> Seq<char> {
    (if clip.pinned {
        "*"@
    } else {
        " "@
    }) + right_aligned(decimal(clip.id as int), width) + "  "@ + left_aligned(clip.kind.name(), 10)
        + "  "@ + clip.preview(72) + "\n"@
}

/// The lines of a clip table.
pub open spec fn clip_lines(clips: Seq<ClipView>, width: nat) -> Seq<char>
    decreases clips.len(),
{
    if clips.len() == 0 {
        Seq::empty()
    } else {
        clip_lines(clips.drop_last(), width) + clip_line(clips.last(), width)
    }
}

/// A clip table.
pub open spec fn clip_table(clips: Seq<ClipView>) -> Seq<char> {
    clip_lines(clips, id_width(clips))
}

fn append_clip_line(v: &mut Vec<char>, clip: &Clip, width: usize)
    ensures
        final(v)@ == old(v)@ + clip_line(clip@, width as nat),
{
    let ghost before = v@;
    append_chars(
        v,
        &chars_of(
            if clip.pinned {
                "*"
            } else {
                " "
            },
        ),
    );
    append_chars(v, &align_right(&signed_chars(clip.id), width));
    append_chars(v, &chars_of("  "));
    append_chars(v, &align_left(&chars_of(clip.kind.as_str()), 10));
    append_chars(v, &chars_of("  "));
    let preview = clip.preview(72);
    append_chars(v, &chars_of(preview.as_str()));
    append_chars(v, &chars_of("\n"));
    assert(v@ == before + clip_line(clip@, width as nat));
}

fn clip_table_of(clips: &Vec<Clip>) -> (res: Vec<char>)
    ensures
        res@ == clip_table(clip_views(clips@)),
{
    let ghost all = clip_views(clips@);
    let mut width: usize = 2;
    for i in 0..clips.len()
        invariant
            all == clip_views(clips@),
            width == id_width(all.take(i as int)),
    {
        let n = signed_chars(clips[i].id).len();
        proof {
            assert(all.take(i + 1).drop_last() == all.take(i as int));
            assert(all.take(i + 1).last() == clips@[i as int]@);
        }
        if n > width {
            width = n;
        }
    }
    assert(all.take(all.len() as int) == all);
    let mut v: Vec<char> = Vec::new();
    for i in 0..clips.len()
        invariant
            all == clip_views(clips@),
            v@ == clip_lines(all.take(i as int), width as nat),
    {
        proof {
            assert(all.take(i + 1).drop_last() == all.take(i as int));
            assert(all.take(i + 1).last() == clips@[i as int]@);
        }
        append_clip_line(&mut v, &clips[i], width);
    }
    v
}

/// One line of the pinboard list.
pub open spec fn board_line(board: PinboardView) -> Seq<char> {
    left_aligned(board.name, 24) + " "@ + decimal(board.clip_count as int) + " "@ + (
    if board.clip_count == 1 {
        "clip"@
    } else {
        "clips"@
    }) + "\n"@
}

/// The lines of the pinboard list.
pub open spec fn board_lines(boards: Seq<PinboardView>) -> Seq<char>
    decreases boards.len(),
{
    if boards.len() == 0 {
        Seq::empty()
    } else {
        board_lines(boards.drop_last()) + board_line(boards.last())
    }
}

fn board_lines_of(boards: &Vec<Pinboard>) -> (res: Vec<char>)
    ensures
        res@ == board_lines(pinboard_views(boards@)),
{
    let ghost all = pinboard_views(boards@);
    let mut v: Vec<char> = Vec::new();
    for i in 0..boards.len()
        invariant
            all == pinboard_views(boards@),
            v@ == board_lines(all.take(i as int)),
    {
        let ghost before = v@;
        proof {
            assert(all.take(i + 1).drop_last() == all.take(i as int));
            assert(all.take(i + 1).last() == boards@[i as int]@);
        }
        let board = &boards[i];
        append_chars(&mut v, &align_left(&chars_of(board.name.as_str()), 24));
        append_chars(&mut v, &chars_of(" "));
        append_chars(&mut v, &signed_chars(board.clip_count));
        append_chars(&mut v, &chars_of(" "));
        append_chars(
            &mut v,
            &chars_of(
                if board.clip_count == 1 {
                    "clip"
                } else {
                    "clips"
                },
            ),
        );
        append_chars(&mut v, &chars_of("\n"));
        assert(v@ == before + board_line(board@));
    }
    assert(all.take(all.len() as int) == all);
    v
}

/// The status report in words.
pub open spec fn status_text(report: StatusView) -> Seq<char> {
    "Pasteport "@ + report.version + "\n  backend        "@ + report.backend
        + "\n  uptime         "@ + duration_text(report.uptime_secs) + "\n  poll interval  "@
        + digits(report.poll_interval_ms as nat) + " ms\n  data dir       "@ + report.data_dir
        + "\n  clips          "@ + decimal(report.stats.total_clips as int) + " ("@ + decimal(
        report.stats.pinned_clips as int,
    ) + " pinned)\n  pinboards      "@ + decimal(report.stats.pinboards as int)
        + "\n  stored         "@ + bytes_text(report.stats.total_bytes) + "\n  search         "@ + (
    if report.stats.full_text_search {
        "full-text"@
    } else {
        "substring"@
    }) + "\n"@
}

/// The status report in words.
pub fn status_lines(report: &StatusReport) -> (res: String)
    ensures
        res@ == status_text(report@),
{
    let mut v = chars_of("Pasteport ");
    append_chars(&mut v, &chars_of(report.version.as_str()));
    append_chars(&mut v, &chars_of("\n  backend        "));
    append_chars(&mut v, &chars_of(report.backend.as_str()));
    append_chars(&mut v, &chars_of("\n  uptime         "));
    let uptime = format_duration(report.uptime_secs);
    append_chars(&mut v, &chars_of(uptime.as_str()));
    append_chars(&mut v, &chars_of("\n  poll interval  "));
    append_chars(&mut v, &unsigned_chars(report.poll_interval_ms));
    append_chars(&mut v, &chars_of(" ms\n  data dir       "));
    append_chars(&mut v, &chars_of(report.data_dir.as_str()));
    append_chars(&mut v, &chars_of("\n  clips          "));
    append_chars(&mut v, &signed_chars(report.stats.total_clips));
    append_chars(&mut v, &chars_of(" ("));
    append_chars(&mut v, &signed_chars(report.stats.pinned_clips));
    append_chars(&mut v, &chars_of(" pinned)\n  pinboards      "));
    append_chars(&mut v, &signed_chars(report.stats.pinboards));
    append_chars(&mut v, &chars_of("\n  stored         "));
    let stored = format_bytes(report.stats.total_bytes);
    append_chars(&mut v, &chars_of(stored.as_str()));
    append_chars(&mut v, &chars_of("\n  search         "));
    append_chars(
        &mut v,
        &chars_of(
            if report.stats.full_text_search {
                "full-text"
            } else {
                "substring"
            },
        ),
    );
    append_chars(&mut v, &chars_of("\n"));
    assert(v@ == status_text(report@));
    string_of(&v)
}

/// Standard output alone.
pub open spec fn says(out: Seq<char>) -> OutputView {
    OutputView { out, err: Seq::empty(), failed: false }
}

fn say(v: &Vec<char>) -> (res: Output)
    ensures
        res@ == says(v@),
{
    let empty: Vec<char> = Vec::new();
    Output { out: string_of(v), err: string_of(&empty), failed: false }
}

/// What a clip in a reply prints, by command.
pub open spec fn clip_output(command: Command, clip: ClipView) -> OutputView {
    match command {
        Command::Get { .. } => match clip.text {
            Some(text) => says(text + "\n"@),
            None => OutputView {
                out: clip.preview(80) + "\n"@,
                err: "(this clip is "@ + clip.mime + ", "@ + decimal(clip.byte_len as int)
                    + " bytes; use --json to fetch it)"@ + "\n"@,
                failed: false,
            },
        },
        Command::Copy { .. } => says(
            "Copied clip "@ + decimal(clip.id as int) + ": "@ + clip.preview(60) + "\n"@,
        ),
        Command::Capture => says(
            "Captured clip "@ + decimal(clip.id as int) + ": "@ + clip.preview(60) + "\n"@,
        ),
        Command::Pin { .. } => says("Pinned clip "@ + decimal(clip.id as int) + "\n"@),
        Command::Unpin { .. } => says("Unpinned clip "@ + decimal(clip.id as int) + "\n"@),
        _ => says(clip_table(seq![clip])),
    }
}

/// What a reply to a command prints. An error goes to standard error, and the
/// command fails.
pub open spec fn rendered(command: Command, response: ResponseView) -> OutputView {
    match response {
        ResponseView::Error { message } => OutputView {
            out: Seq::empty(),
            err: "Error: "@ + message + "\n"@,
            failed: true,
        },
        ResponseView::Clips { clips } => if clips.len() == 0 {
            says("No clips.\n"@)
        } else {
            says(clip_table(clips))
        },
        ResponseView::Clip { clip } => clip_output(command, clip),
        ResponseView::Pinboards { pinboards } => if pinboards.len() == 0 {
            says("No pinboards. Create one with: pasteport board create <name>\n"@)
        } else {
            says(board_lines(pinboards))
        },
        ResponseView::Count { count } => says(
            match command {
                Command::Clear { .. } => "Deleted "@ + digits(count as nat) + " clips.\n"@,
                Command::Prune => "Pruned "@ + digits(count as nat) + " clips.\n"@,
                _ => digits(count as nat) + "\n"@,
            },
        ),
        ResponseView::Status(report) => says(status_text(report)),
        ResponseView::Pong { version } => says("pasteportd "@ + version + "\n"@),
        ResponseView::Bytes { base64 } => match base64 {
            Some(b64) => says(b64 + "\n"@),
            None => says("(no binary payload)\n"@),
        },
        ResponseView::Done => says("Done.\n"@),
    }
}

fn render_clip(command: &Command, clip: &Clip) -> (res: Output)
    ensures
        res@ == clip_output(*command, clip@),
{
    match command {
        // `get` prints the payload alone so it can be piped.
        Command::Get { .. } => match &clip.text {
            Some(text) => {
                let mut v = chars_of(text.as_str());
                append_chars(&mut v, &chars_of("\n"));
                say(&v)
            },
            None => {
                let preview = clip.preview(80);
                let mut out = chars_of(preview.as_str());
                append_chars(&mut out, &chars_of("\n"));
                let mut err = chars_of("(this clip is ");
                append_chars(&mut err, &chars_of(clip.mime.as_str()));
                append_chars(&mut err, &chars_of(", "));
                append_chars(&mut err, &signed_chars(clip.byte_len));
                append_chars(&mut err, &chars_of(" bytes; use --json to fetch it)"));
                append_chars(&mut err, &chars_of("\n"));
                Output { out: string_of(&out), err: string_of(&err), failed: false }
            },
        },
        Command::Copy { .. } => {
            let preview = clip.preview(60);
            let mut v = chars_of("Copied clip ");
            append_chars(&mut v, &signed_chars(clip.id));
            append_chars(&mut v, &chars_of(": "));
            append_chars(&mut v, &chars_of(preview.as_str()));
            append_chars(&mut v, &chars_of("\n"));
            say(&v)
        },
        Command::Capture => {
            let preview = clip.preview(60);
            let mut v = chars_of("Captured clip ");
            append_chars(&mut v, &signed_chars(clip.id));
            append_chars(&mut v, &chars_of(": "));
            append_chars(&mut v, &chars_of(preview.as_str()));
            append_chars(&mut v, &chars_of("\n"));
            say(&v)
        },
        Command::Pin { .. } => {
            let mut v = chars_of("Pinned clip ");
            append_chars(&mut v, &signed_chars(clip.id));
            append_chars(&mut v, &chars_of("\n"));
            say(&v)
        },
        Command::Unpin { .. } => {
            let mut v = chars_of("Unpinned clip ");
            append_chars(&mut v, &signed_chars(clip.id));
            append_chars(&mut v, &chars_of("\n"));
            say(&v)
        },
        _ => {
            let mut one: Vec<Clip> = Vec::new();
            one.push(clip.clone());
            assert(clip_views(one@) == seq![clip@]);
            say(&clip_table_of(&one))
        },
    }
}

/// What a reply to a command prints.
pub fn render(command: &Command, response: &Response) -> (res: Output)
    ensures
        res@ == rendered(*command, response@),
{
    match response {
        Response::Error { message } => {
            let mut err = chars_of("Error: ");
            append_chars(&mut err, &chars_of(message.as_str()));
            append_chars(&mut err, &chars_of("\n"));
            let out: Vec<char> = Vec::new();
            Output { out: string_of(&out), err: string_of(&err), failed: true }
        },
        Response::Clips { clips } => {
            assert(clip_views(clips@).len() == clips@.len());
            if clips.len() == 0 {
                say(&chars_of("No clips.\n"))
            } else {
                say(&clip_table_of(clips))
            }
        },
        Response::Clip { clip } => render_clip(command, clip),
        Response::Pinboards { pinboards } => {
            assert(pinboard_views(pinboards@).len() == pinboards@.len());
            if pinboards.len() == 0 {
                say(
                    &chars_of("No pinboards. Create one with: pasteport board create <name>\n"),
                )
            } else {
                say(&board_lines_of(pinboards))
            }
        },
        Response::Count { count } => {
            let number = unsigned_chars(*count as u64);
            let mut v: Vec<char> = Vec::new();
            match command {
                Command::Clear { .. } => {
                    append_chars(&mut v, &chars_of("Deleted "));
                    append_chars(&mut v, &number);
                    append_chars(&mut v, &chars_of(" clips.\n"));
                },
                Command::Prune => {
                    append_chars(&mut v, &chars_of("Pruned "));
                    append_chars(&mut v, &number);
                    append_chars(&mut v, &chars_of(" clips.\n"));
                },
                _ => {
                    append_chars(&mut v, &number);
                    append_chars(&mut v, &chars_of("\n"));
                },
            }
            assert(v@ == rendered(*command, response@).out);
            say(&v)
        },
        Response::Status(report) => {
            let text = status_lines(report);
            say(&chars_of(text.as_str()))
        },
        Response::Pong { version } => {
            let mut v = chars_of("pasteportd ");
            append_chars(&mut v, &chars_of(version.as_str()));
            append_chars(&mut v, &chars_of("\n"));
            say(&v)
        },
        Response::Bytes { base64 } => match base64 {
            Some(b64) => {
                let mut v = chars_of(b64.as_str());
                append_chars(&mut v, &chars_of("\n"));
                say(&v)
            },
            None => say(&chars_of("(no binary payload)\n")),
        },
        Response::Done => say(&chars_of("Done.\n")),
    }
}

/// A command fails exactly where the reply is an error, whatever the
/// command was.
pub proof fn law_only_errors_fail(command: Command, response: ResponseView)
    ensures
        rendered(command, response).failed <==> response is Error,
{
}

} // verus!
