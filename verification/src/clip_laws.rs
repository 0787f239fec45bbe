//! What holds of previews and content digests.

use vstd::prelude::*;
use vstd::utf8::{encode_scalar, encode_utf8, encode_utf8_decode_utf8};
use crate::clip::{law_kind_names_read_back, ClipKind, ClipView, NewClipView};
use crate::search::nul_free;
use crate::text::{decimal, digit, digits, is_white, joined, lemma_runs_clean, words};

verus! {

/// A preview never exceeds the length asked for; asked for nothing, it is at
/// most the ellipsis.
pub proof fn law_preview_fits(clip: ClipView, max_chars: nat)
    ensures
        clip.preview(max_chars).len() <= max_chars || max_chars == 0 && clip.preview(
            max_chars,
        ).len() <= 1,
{
}

/// A preview is a single line: the only whitespace in it is the plain space.
pub proof fn law_preview_is_one_line(clip: ClipView, max_chars: nat, i: int)
    requires
        0 <= i < clip.preview(max_chars).len(),
    ensures
        is_white(clip.preview(max_chars)[i]) ==> clip.preview(max_chars)[i] == ' ',
{
    let label = clip.label();
    match clip.text {
        Some(t) => {
            lemma_runs_clean(t, |c: char| is_white(c));
            lemma_joined_chars(words(t));
        },
        None => {
            lemma_decimal_plain(clip.byte_len as int);
            reveal_strlit("Image");
            reveal_strlit("text");
            reveal_strlit("rich_text");
            reveal_strlit("link");
            reveal_strlit("color");
            reveal_strlit("image");
            reveal_strlit("file");
            reveal_strlit(" (");
            reveal_strlit(" bytes)");
        },
    }
    assert(forall|k: int| 0 <= k < label.len() ==> is_white(#[trigger] label[k]) ==> label[k] == ' ');
}

proof fn lemma_joined_chars(parts: Seq<Seq<char>>)
    requires
        forall|p: int, k: int|
            0 <= p < parts.len() && 0 <= k < parts[p].len() ==> !is_white(#[trigger] parts[p][k]),
    ensures
        forall|k: int|
            0 <= k < joined(parts, seq![' ']).len() ==> is_white(
                #[trigger] joined(parts, seq![' '])[k],
            ) ==> joined(parts, seq![' '])[k] == ' ',
    decreases parts.len(),
{
    if parts.len() > 1 {
        let head = parts.drop_last();
        assert forall|p: int, k: int| 0 <= p < head.len() && 0 <= k < head[p].len() implies 
            !is_white(#[trigger] head[p][k]) by {
            assert(head[p] == parts[p]);
        }
        lemma_joined_chars(head);
        let all = joined(parts, seq![' ']);
        let a = joined(head, seq![' ']);
        assert forall|k: int| 0 <= k < all.len() && is_white(#[trigger] all[k]) implies all[k]
            == ' ' by {
            if k < a.len() {
                assert(all[k] == a[k]);
            } else if k > a.len() {
                assert(all[k] == parts[parts.len() - 1][k - a.len() - 1]);
            }
        }
    }
}

proof fn lemma_digits_plain(n: nat)
    ensures
        forall|k: int| 0 <= k < digits(n).len() ==> !is_white(#[trigger] digits(n)[k]),
    decreases n,
{
    let last = digit(n % 10);
    assert(48 <= last as u32 <= 57);
    assert(!is_white(last));
    if n >= 10 {
        lemma_digits_plain(n / 10);
        let head = digits(n / 10);
        assert forall|k: int| 0 <= k < digits(n).len() implies !is_white(
            #[trigger] digits(n)[k],
        ) by {
            if k < head.len() {
                assert(digits(n)[k] == head[k]);
            }
        }
    }
}

proof fn lemma_decimal_plain(n: int)
    ensures
        forall|k: int| 0 <= k < decimal(n).len() ==> !is_white(#[trigger] decimal(n)[k]),
{
    if n < 0 {
        lemma_digits_plain((-n) as nat);
    } else {
        lemma_digits_plain(n as nat);
    }
}

/// The digest ignores where a clip came from and how it was marked.
pub proof fn law_digest_ignores_provenance(
    clip: NewClipView,
    app: Option<Seq<char>>,
    bundle_id: Option<Seq<char>>,
    concealed: bool,
)
    ensures
        (NewClipView { source_app: app, source_bundle_id: bundle_id, concealed, ..clip }).digest()
            == clip.digest(),
{
}

/// The text as far as the digest sees it.
pub open spec fn text_or_empty(clip: NewClipView) -> Seq<char> {
    match clip.text {
        Some(t) => t,
        None => Seq::empty(),
    }
}

/// The payload as far as the digest sees it.
pub open spec fn bytes_or_empty(clip: NewClipView) -> Seq<u8> {
    match clip.bytes {
        Some(b) => b,
        None => Seq::empty(),
    }
}

/// What is hashed tells contents apart: clips have the same hashed bytes only
/// where kind, type, text and payload agree. A null character can blur where a
/// field ends, so the types are the same or free of it, and the texts are free of
/// it or the payloads equally long, as with two clips that have none.
pub proof fn law_digest_covers_content(a: NewClipView, b: NewClipView)
    requires
        a.preimage() == b.preimage(),
        a.mime == b.mime || nul_free(a.mime) && nul_free(b.mime),
        bytes_or_empty(a).len() == bytes_or_empty(b).len() || nul_free(text_or_empty(a))
            && nul_free(text_or_empty(b)),
    ensures
        a.mime == b.mime,
        a.kind == b.kind,
        text_or_empty(a) == text_or_empty(b),
        bytes_or_empty(a) == bytes_or_empty(b),
{
    lemma_kind_name_nul_free(a.kind);
    lemma_kind_name_nul_free(b.kind);
    assert(encode_utf8(Seq::<char>::empty()) == Seq::<u8>::empty());
    lemma_fields(
        a.mime,
        a.kind.name(),
        text_or_empty(a),
        bytes_or_empty(a),
        b.mime,
        b.kind.name(),
        text_or_empty(b),
        bytes_or_empty(b),
    );
    law_kind_names_read_back(a.kind);
    law_kind_names_read_back(b.kind);
}

/// Three texts and a payload, each text closed by a zero byte.
spec fn framed(m: Seq<char>, k: Seq<char>, t: Seq<char>, p: Seq<u8>) -> Seq<u8> {
    encode_utf8(m) + seq![0u8] + encode_utf8(k) + seq![0u8] + encode_utf8(t) + seq![0u8] + p
}

proof fn lemma_peel(m: Seq<char>, k: Seq<char>, t: Seq<char>, p: Seq<u8>)
    ensures
        framed(m, k, t, p) == encode_utf8(m) + seq![0u8] + (encode_utf8(k) + seq![0u8] + (
        encode_utf8(t) + seq![0u8] + p)),
{
}

proof fn lemma_same_text(a: Seq<char>, b: Seq<char>)
    requires
        encode_utf8(a) == encode_utf8(b),
    ensures
        a == b,
{
    encode_utf8_decode_utf8(a);
    encode_utf8_decode_utf8(b);
}

proof fn lemma_fields(
    m: Seq<char>,
    k: Seq<char>,
    t: Seq<char>,
    p: Seq<u8>,
    m2: Seq<char>,
    k2: Seq<char>,
    t2: Seq<char>,
    p2: Seq<u8>,
)
    requires
        m == m2 || nul_free(m) && nul_free(m2),
        nul_free(k),
        nul_free(k2),
        p.len() == p2.len() || nul_free(t) && nul_free(t2),
        framed(m, k, t, p) == framed(m2, k2, t2, p2),
    ensures
        m == m2,
        k == k2,
        t == t2,
        p == p2,
{
    lemma_encoding_zero_free(k);
    lemma_encoding_zero_free(k2);
    lemma_peel(m, k, t, p);
    lemma_peel(m2, k2, t2, p2);
    let tp = encode_utf8(t) + seq![0u8] + p;
    let tp2 = encode_utf8(t2) + seq![0u8] + p2;
    let ktp = encode_utf8(k) + seq![0u8] + tp;
    let ktp2 = encode_utf8(k2) + seq![0u8] + tp2;
    if m == m2 {
        lemma_same_length(encode_utf8(m), ktp, encode_utf8(m2), ktp2);
    } else {
        lemma_encoding_zero_free(m);
        lemma_encoding_zero_free(m2);
        lemma_first_zero(encode_utf8(m), ktp, encode_utf8(m2), ktp2);
    }
    lemma_first_zero(encode_utf8(k), tp, encode_utf8(k2), tp2);
    if p.len() == p2.len() {
        assert(tp.len() == encode_utf8(t).len() + 1 + p.len());
        assert(tp2.len() == encode_utf8(t2).len() + 1 + p2.len());
        lemma_same_length(encode_utf8(t), p, encode_utf8(t2), p2);
    } else {
        lemma_encoding_zero_free(t);
        lemma_encoding_zero_free(t2);
        lemma_first_zero(encode_utf8(t), p, encode_utf8(t2), p2);
    }
    lemma_same_text(m, m2);
    lemma_same_text(k, k2);
    lemma_same_text(t, t2);
}

spec fn zero_free(s: Seq<u8>) -> bool {
    forall|i: int| 0 <= i < s.len() ==> #[trigger] s[i] != 0u8
}

proof fn lemma_same_length(a: Seq<u8>, x: Seq<u8>, b: Seq<u8>, y: Seq<u8>)
    requires
        a.len() == b.len(),
        a + seq![0u8] + x == b + seq![0u8] + y,
    ensures
        a == b,
        x == y,
{
    let s = a + seq![0u8] + x;
    let t = b + seq![0u8] + y;
    let n = a.len() as int;
    assert(s.take(n) == a);
    assert(t.take(n) == b);
    assert(s.skip(n + 1) == x);
    assert(t.skip(n + 1) == y);
}

proof fn lemma_first_zero(a: Seq<u8>, x: Seq<u8>, b: Seq<u8>, y: Seq<u8>)
    requires
        zero_free(a),
        zero_free(b),
        a + seq![0u8] + x == b + seq![0u8] + y,
    ensures
        a == b,
        x == y,
{
    let s = a + seq![0u8] + x;
    let t = b + seq![0u8] + y;
    assert(s[a.len() as int] == 0u8);
    assert(t[b.len() as int] == 0u8);
    if a.len() < b.len() {
        assert(t[a.len() as int] == b[a.len() as int]);
    }
    if b.len() < a.len() {
        assert(s[b.len() as int] == a[b.len() as int]);
    }
    lemma_same_length(a, x, b, y);
}

proof fn lemma_kind_name_nul_free(kind: ClipKind)
    ensures
        nul_free(kind.name()),
{
    reveal_strlit("text");
    reveal_strlit("rich_text");
    reveal_strlit("link");
    reveal_strlit("color");
    reveal_strlit("image");
    reveal_strlit("file");
}

proof fn lemma_scalar_zero_free(c: char)
    requires
        c != '\0',
    ensures
        zero_free(encode_scalar(c as u32)),
{
    let u = c as u32;
    assert(u != 0);
    assert(u != 0 && u <= 0x7F ==> (u & 0x7F) as u8 != 0) by (bit_vector);
    assert((0xC0u8 | ((u >> 6) & 0x1F) as u8) != 0) by (bit_vector);
    assert((0xE0u8 | ((u >> 12) & 0x0F) as u8) != 0) by (bit_vector);
    assert((0xF0u8 | ((u >> 18) & 0x7) as u8) != 0) by (bit_vector);
    assert((0x80u8 | (u & 0x3F) as u8) != 0) by (bit_vector);
    assert((0x80u8 | ((u >> 6) & 0x3F) as u8) != 0) by (bit_vector);
    assert((0x80u8 | ((u >> 12) & 0x3F) as u8) != 0) by (bit_vector);
}

proof fn lemma_encoding_zero_free(s: Seq<char>)
    requires
        nul_free(s),
    ensures
        zero_free(encode_utf8(s)),
    decreases s.len(),
{
    if s.len() > 0 {
        lemma_scalar_zero_free(s[0]);
        assert forall|i: int| 0 <= i < s.drop_first().len() implies #[trigger] s.drop_first()[i]
            != '\0' by {
            assert(s.drop_first()[i] == s[i + 1]);
        }
        lemma_encoding_zero_free(s.drop_first());
        let head = encode_scalar(s[0] as u32);
        let tail = encode_utf8(s.drop_first());
        let all = encode_utf8(s);
        assert(all == head + tail);
        assert forall|i: int| 0 <= i < all.len() implies #[trigger] all[i] != 0u8 by {
            if i < head.len() {
                assert(all[i] == head[i]);
            } else {
                assert(all[i] == tail[i - head.len()]);
            }
        }
    }
}

/// A preview that has room for everything shows every word of the text, in order,
/// with single blanks between them.
pub proof fn law_preview_shows_every_word(clip: ClipView, max_chars: nat)
    requires
        clip.text is Some,
        clip.preview(max_chars).len() < max_chars,
    ensures
        words(clip.preview(max_chars)) == words(clip.text->0),
{
    let t = clip.text->0;
    let sep = |c: char| is_white(c);
    lemma_runs_clean(t, sep);
    crate::text_laws::law_joined_words_come_apart(words(t), ' ', sep);
}

/// A preview is cut only where it must be, and then shows as much of the beginning
/// as fits beside the ellipsis: a longer preview begins with all of a shorter one
/// but the ellipsis.
pub proof fn law_preview_is_cut_at_the_end(clip: ClipView, fewer: nat, more: nat)
    requires
        0 < fewer <= more,
    ensures
        ({
            let short = clip.preview(fewer);
            let long = clip.preview(more);
            &&& short.len() < fewer ==> short == long
            &&& short != long ==> short.len() == fewer && short.last() == '\u{2026}'
                && long.len() >= fewer && short.drop_last() == long.take(fewer - 1)
        }),
{
    let s = clip.label();
    if s.len() > fewer {
        assert(s.take(fewer - 1).push('\u{2026}').drop_last() =~= s.take(fewer - 1));
        if s.len() > more {
            assert(clip.preview(more).take(fewer - 1) =~= s.take(fewer - 1));
        } else {
            assert(clip.preview(more) == s);
        }
    }
}

/// The preview of a clip without text tells its size and, images aside, its kind.
pub proof fn law_textless_previews_tell_the_size(clip: ClipView)
    requires
        clip.text is None,
    ensures
        crate::text::has_part(clip.label(), decimal(clip.byte_len as int) + " bytes"@),
        clip.kind != ClipKind::Image ==> crate::text::has_prefix(clip.label(), clip.kind.name()),
        clip.kind == ClipKind::Image ==> crate::text::has_prefix(clip.label(), "Image"@),
{
    let n = decimal(clip.byte_len as int);
    let head = if clip.kind == ClipKind::Image {
        "Image"@
    } else {
        clip.kind.name()
    };
    reveal_strlit(" bytes)");
    reveal_strlit(" bytes");
    assert(" bytes)"@ =~= " bytes"@ + seq![')']);
    assert((head + " ("@) + (n + " bytes"@) + seq![')'] =~= clip.label());
    crate::text_laws::law_part_occurs(clip.label(), n + " bytes"@);
    assert(head + (" ("@ + n + " bytes)"@) =~= clip.label());
    crate::text_laws::law_prefix_begins(clip.label(), head);
}

} // verus!
