//! Which kind a text is taken for.

use vstd::prelude::*;
use crate::clip::{text_kind, ClipKind, NewClipView};
use crate::text::{has_prefix, is_blank, is_white, lower, lowered, runs, trim, words};
use crate::text_laws::{
    law_prefix_begins, law_run_stands_alone, law_runs_come_apart, law_trim_leaves_the_core,
    law_trim_strips_the_ends,
};

verus! {

/// The beginnings that make a text a link.
pub open spec fn is_scheme(s: Seq<char>) -> bool {
    s == "https://"@ || s == "http://"@ || s == "ftp://"@ || s == "ssh://"@ || s == "mailto:"@
}

/// The beginnings, in lower case, that make a text a colour function.
pub open spec fn is_color_function(s: Seq<char>) -> bool {
    s == "rgb("@ || s == "rgba("@ || s == "hsl("@ || s == "hsla("@
}

/// A text without whitespace.
pub open spec fn in_one_piece(s: Seq<char>) -> bool {
    forall|i: int| 0 <= i < s.len() ==> !is_white(#[trigger] s[i])
}

proof fn lemma_schemes(scheme: Seq<char>)
    requires
        is_scheme(scheme),
    ensures
        scheme.len() >= 6,
        in_one_piece(scheme),
        scheme[0] == 'h' && scheme[1] == 't' || scheme[0] == 'f' || scheme[0] == 's' || scheme[0]
            == 'm',
{
    reveal_strlit("https://");
    reveal_strlit("http://");
    reveal_strlit("ftp://");
    reveal_strlit("ssh://");
    reveal_strlit("mailto:");
}

/// Every known scheme followed by anything in one piece is a link, whatever
/// whitespace is around it.
pub proof fn law_links_are_recognised(
    lead: Seq<char>,
    scheme: Seq<char>,
    rest: Seq<char>,
    trail: Seq<char>,
)
    requires
        is_blank(lead),
        is_blank(trail),
        is_scheme(scheme),
        rest.len() > 0,
        in_one_piece(rest),
    ensures
        text_kind(lead + (scheme + rest) + trail) == ClipKind::Link,
{
    let core = scheme + rest;
    lemma_schemes(scheme);
    assert forall|i: int| 0 <= i < core.len() implies !is_white(#[trigger] core[i]) by {
        if i < scheme.len() {
            assert(core[i] == scheme[i]);
        } else {
            assert(core[i] == rest[i - scheme.len()]);
        }
    }
    law_trim_strips_the_ends(lead, core, trail);
    law_run_stands_alone(core, |c: char| is_white(c));
    assert(words(core).len() == 1);
    law_prefix_begins(core, scheme);
    assert(has_prefix(core, scheme));
}

/// Nothing else is a link: what is taken for one is, whitespace around it aside, a
/// known scheme and more, in one piece.
pub proof fn law_only_links_are_links(body: Seq<char>)
    requires
        text_kind(body) == ClipKind::Link,
    ensures
        in_one_piece(trim(body)),
        exists|scheme: Seq<char>, rest: Seq<char>|
            is_scheme(scheme) && rest.len() > 0 && #[trigger] (scheme + rest) == trim(body),
{
    let core = trim(body);
    let (lead, trail) = law_trim_leaves_the_core(body);
    lemma_one_word(core);
    let scheme = if crate::clip::extends(core, "https://"@) {
        "https://"@
    } else if crate::clip::extends(core, "http://"@) {
        "http://"@
    } else if crate::clip::extends(core, "ftp://"@) {
        "ftp://"@
    } else if crate::clip::extends(core, "ssh://"@) {
        "ssh://"@
    } else {
        "mailto:"@
    };
    assert(is_scheme(scheme));
    law_prefix_begins(core, scheme);
    let rest = choose|rest: Seq<char>| #[trigger] (scheme + rest) == core;
    assert(rest.len() > 0 && scheme + rest == core);
}

proof fn lemma_has_run(s: Seq<char>, sep: spec_fn(char) -> bool, k: int)
    requires
        0 <= k < s.len(),
        !sep(s[k]),
    ensures
        runs(s, sep).len() > 0,
    decreases s.len(),
{
    if k < s.len() - 1 {
        assert(s.drop_last()[k] == s[k]);
        lemma_has_run(s.drop_last(), sep, k);
    }
}

proof fn lemma_one_word(core: Seq<char>)
    requires
        core.len() > 0,
        !is_white(core[0]),
        !is_white(core.last()),
        words(core).len() == 1,
    ensures
        in_one_piece(core),
{
    let sep = |c: char| is_white(c);
    assert forall|k: int| 0 <= k < core.len() implies !is_white(#[trigger] core[k]) by {
        if is_white(core[k]) {
            let a = core.take(k);
            let b = core.skip(k + 1);
            assert(core =~= a.push(core[k]) + b);
            law_runs_come_apart(a, core[k], b, sep);
            assert(a[0] == core[0]);
            lemma_has_run(a, sep, 0);
            assert(b.last() == core.last());
            lemma_has_run(b, sep, b.len() - 1);
        }
    }
}

/// A hash sign and three, four, six or eight hexadecimal digits are a colour,
/// whatever whitespace is around them.
pub proof fn law_hex_colors_are_recognised(lead: Seq<char>, code: Seq<char>, trail: Seq<char>)
    requires
        is_blank(lead),
        is_blank(trail),
        code.len() == 3 || code.len() == 4 || code.len() == 6 || code.len() == 8,
        forall|i: int|
            0 <= i < code.len() ==> '0' <= #[trigger] code[i] <= '9' || 'a' <= code[i] <= 'f' || 'A'
                <= code[i] <= 'F',
    ensures
        text_kind(lead + (seq!['#'] + code) + trail) == ClipKind::Color,
{
    let core = seq!['#'] + code;
    assert(core.last() == code[code.len() - 1]);
    law_trim_strips_the_ends(lead, core, trail);
    reveal_strlit("https://");
    reveal_strlit("http://");
    reveal_strlit("ftp://");
    reveal_strlit("ssh://");
    reveal_strlit("mailto:");
    lemma_other_start(core);
    assert forall|i: int| 1 <= i < core.len() implies crate::text::is_hex(#[trigger] core[i]) by {
        assert(core[i] == code[i - 1]);
    }
}

/// No text is a link that begins otherwise than the schemes do.
proof fn lemma_other_start(core: Seq<char>)
    requires
        core.len() > 0,
        core[0] == '#' || core[0] == 'r' || core[0] == 'R' || core[0] == 'H' || core.len() > 1
            && core[0] == 'h' && core[1] != 't',
    ensures
        !crate::clip::is_url_text(core),
{
    reveal_strlit("https://");
    reveal_strlit("http://");
    reveal_strlit("ftp://");
    reveal_strlit("ssh://");
    reveal_strlit("mailto:");
    assert forall|scheme: Seq<char>| is_scheme(scheme) implies !#[trigger] has_prefix(
        core,
        scheme,
    ) by {
        if has_prefix(core, scheme) {
            lemma_schemes(scheme);
            let head = core.subrange(0, scheme.len() as int);
            assert(head[0] == core[0] && head[1] == core[1]);
        }
    }
    assert(is_scheme("https://"@) && is_scheme("http://"@) && is_scheme("ftp://"@) && is_scheme(
        "ssh://"@,
    ) && is_scheme("mailto:"@));
}

/// A colour function in any ASCII case, up to a closing bracket, is a colour.
pub proof fn law_color_functions_are_recognised(
    lead: Seq<char>,
    opening: Seq<char>,
    inside: Seq<char>,
    trail: Seq<char>,
)
    requires
        is_blank(lead),
        is_blank(trail),
        is_color_function(lowered(opening)),
    ensures
        text_kind(lead + (opening + inside + seq![')']) + trail) == ClipKind::Color,
{
    let core = opening + inside + seq![')'];
    reveal_strlit("rgb(");
    reveal_strlit("rgba(");
    reveal_strlit("hsl(");
    reveal_strlit("hsla(");
    assert(lowered(opening).len() == opening.len());
    assert(lowered(opening)[0] == lower(opening[0]));
    assert(lowered(opening)[1] == lower(opening[1]));
    assert(core[0] == opening[0] && core[1] == opening[1]);
    lemma_lower_of(opening[0]);
    lemma_lower_of(opening[1]);
    assert(core.last() == ')');
    law_trim_strips_the_ends(lead, core, trail);
    lemma_other_start(core);
    assert(lowered(core) =~= lowered(opening) + lowered(inside + seq![')']));
    law_prefix_begins(lowered(core), lowered(opening));
}

proof fn lemma_lower_of(c: char)
    ensures
        lower(c) == 'r' ==> c == 'r' || c == 'R',
        lower(c) == 'h' ==> c == 'h' || c == 'H',
        lower(c) == 's' ==> c == 's' || c == 'S',
{
    if 'A' <= c <= 'Z' {
        assert(lower(c) as u32 == c as u32 + 32);
    }
}

/// Nothing else is a colour: what is taken for one is, whitespace around it aside,
/// a hash sign and that many digits, or a colour function up to a closing bracket.
pub proof fn law_only_colors_are_colors(body: Seq<char>)
    requires
        text_kind(body) == ClipKind::Color,
    ensures
        ({
            let s = trim(body);
            ||| s.len() > 0 && s[0] == '#' && (s.len() == 4 || s.len() == 5 || s.len() == 7
                || s.len() == 9) && forall|i: int|
                1 <= i < s.len() ==> '0' <= #[trigger] s[i] <= '9' || 'a' <= s[i] <= 'f' || 'A'
                    <= s[i] <= 'F'
            ||| s.len() > 0 && s.last() == ')' && exists|name: Seq<char>, rest: Seq<char>|
                is_color_function(name) && #[trigger] (name + rest) == lowered(s)
        }),
{
    let s = trim(body);
    if !(s[0] == '#') {
        let name = if has_prefix(lowered(s), "rgb("@) {
            "rgb("@
        } else if has_prefix(lowered(s), "rgba("@) {
            "rgba("@
        } else if has_prefix(lowered(s), "hsl("@) {
            "hsl("@
        } else {
            "hsla("@
        };
        assert(is_color_function(name));
        law_prefix_begins(lowered(s), name);
        let rest = choose|rest: Seq<char>| #[trigger] (name + rest) == lowered(s);
        assert(name + rest == lowered(s));
    } else {
        assert forall|i: int| 1 <= i < s.len() implies '0' <= #[trigger] s[i] <= '9' || 'a' <= s[i]
            <= 'f' || 'A' <= s[i] <= 'F' by {
            assert(crate::text::is_hex(s[i]));
        }
    }
}

/// A text is plain, a link or a colour and nothing else, and its clip carries it
/// unchanged, as plain text without a payload; an image's clip carries the bytes.
pub proof fn law_new_clips_carry_their_content(body: Seq<char>, bytes: Seq<u8>, mime: Seq<char>)
    ensures
        text_kind(body) == ClipKind::Text || text_kind(body) == ClipKind::Link || text_kind(body)
            == ClipKind::Color,
        ({
            let clip = NewClipView::text(body);
            &&& clip.text == Some(body)
            &&& clip.bytes is None
            &&& clip.mime == "text/plain"@
            &&& clip.kind == text_kind(body)
            &&& !clip.concealed
            &&& clip.source_app is None && clip.source_bundle_id is None
        }),
        ({
            let clip = NewClipView::image(bytes, mime);
            &&& clip.bytes == Some(bytes)
            &&& clip.text is None
            &&& clip.mime == mime
            &&& clip.kind == ClipKind::Image
            &&& !clip.concealed
        }),
{
}

/// No name stands for a kind but the kind's own, and these are the names that
/// stored histories and clients use.
pub proof fn law_kinds_have_one_name_each(s: Seq<char>, kind: ClipKind)
    ensures
        ClipKind::named(s) == Some(kind) <==> s == kind.name(),
        ClipKind::Text.name() == "text"@,
        ClipKind::RichText.name() == "rich_text"@,
        ClipKind::Link.name() == "link"@,
        ClipKind::Color.name() == "color"@,
        ClipKind::Image.name() == "image"@,
        ClipKind::File.name() == "file"@,
{
    crate::clip::law_kind_names_read_back(kind);
}

} // verus!
