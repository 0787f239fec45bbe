//! Search queries: literal words for the full-text index, and an escaped
//! pattern for the substring fallback.

use vstd::prelude::*;
use vstd::utf8::{encode_scalar, encode_utf8};
use crate::text::{
    append_chars, chars_of, chars_view, has_part, is_alnum, join_chars, joined, lemma_runs_clean,
    lemma_runs_nonempty, lower, lowered, runs, stands_at, string_of,
};

verus! {

/// The longest `LIKE` pattern that SQLite takes by default, in bytes.
pub const MAX_PATTERN_BYTES: usize = 50_000;

/// The longest text that SQLite takes by default, in bytes.
pub const MAX_TEXT_BYTES: usize = 1_000_000_000;

/// Whether a pattern is short enough for `LIKE`.
pub open spec fn pattern_fits(pattern: Seq<char>) -> bool {
    encode_utf8(pattern).len() <= MAX_PATTERN_BYTES
}

/// Whether a text is short enough for SQLite.
pub open spec fn text_fits(text: Seq<char>) -> bool {
    encode_utf8(text).len() <= MAX_TEXT_BYTES
}

/// The longest text that a clip of the largest allowed size can have, in bytes.
/// The full-text index takes any such text.
pub const MAX_INDEXED_BYTES: usize = 268_435_456;

/// Whether the full-text index takes a document: one without text, or with a text
/// that leaves room beside it in a database row.
pub open spec fn indexable(text: Option<Seq<char>>) -> bool {
    text matches Some(t) ==> encode_utf8(t).len() <= MAX_INDEXED_BYTES
}

/// A text without the null character.
pub open spec fn nul_free(s: Seq<char>) -> bool {
    forall|i: int| 0 <= i < s.len() ==> #[trigger] s[i] != '\0'
}

/// Whether a match expression asks for some words, none with a null character.
pub open spec fn is_word_expression(expr: Seq<char>) -> bool {
    exists|words: Seq<Seq<char>>| #[trigger]
        match_expression(words) == expr && words.len() > 0 && forall|i: int|
            0 <= i < words.len() ==> nul_free(#[trigger] words[i])
}

/// Characters that separate search words.
pub open spec fn is_separator(c: char) -> bool {
    !is_alnum(c) && c != '_' && c != '-'
}

/// The literal words of a query.
pub open spec fn query_tokens(query: Seq<char>) -> Seq<Seq<char>> {
    runs(query, |c: char| is_separator(c))
}

/// Split a search query into literal word tokens, discarding punctuation that
/// FTS5 would otherwise interpret as syntax.
pub fn tokenize(query: &str) -> (res: Vec<Vec<char>>)
    ensures
        chars_view(res@) == query_tokens(query@),
{
    let v = chars_of(query);
    let ghost sep = |c: char| is_separator(c);
    let mut out: Vec<Vec<char>> = Vec::new();
    let mut cur: Vec<char> = Vec::new();
    let mut i: usize = 0;
    assert(chars_view(out@) == runs(v@.take(0), sep));
    while i < v.len()
        invariant
            i <= v.len(),
            sep == (|c: char| is_separator(c)),
            cur@.len() > 0 <==> (i > 0 && !sep(v@[i - 1])),
            runs(v@.take(i as int), sep) == (if cur@.len() > 0 {
                chars_view(out@).push(cur@)
            } else {
                chars_view(out@)
            }),
        decreases v.len() - i,
    {
        let c = v[i];
        let ghost t = v@.take(i + 1);
        assert(t.drop_last() == v@.take(i as int));
        assert(t.last() == c);
        if i > 0 {
            assert(t[t.len() - 2] == v@[i - 1]);
        }
        if !c.is_alphanumeric() && c != '_' && c != '-' {
            if cur.len() > 0 {
                let ghost before = out@;
                out.push(cur);
                assert(chars_view(out@) == chars_view(before).push(cur@));
                cur = Vec::new();
            }
        } else {
            let ghost before = cur@;
            cur.push(c);
            proof {
                if before.len() > 0 {
                    assert(chars_view(out@).push(before).drop_last() == chars_view(out@));
                    assert(runs(t, sep) == chars_view(out@).push(cur@));
                } else {
                    assert(cur@ == seq![c]);
                }
            }
        }
        i += 1;
    }
    assert(v@.take(v@.len() as int) == v@);
    if cur.len() > 0 {
        let ghost before = out@;
        out.push(cur);
        assert(chars_view(out@) == chars_view(before).push(cur@));
    }
    out
}

/// Every token is a non-empty word without separators.
pub proof fn law_tokens_are_plain_words(query: Seq<char>, i: int)
    requires
        0 <= i < query_tokens(query).len(),
    ensures
        query_tokens(query)[i].len() > 0,
        forall|j: int|
            0 <= j < query_tokens(query)[i].len() ==> !is_separator(
                #[trigger] query_tokens(query)[i][j],
            ),
{
    lemma_runs_clean(query, |c: char| is_separator(c));
}

// ---- the full-text expression ------------------------------------------

/// The text with every double quote doubled.
pub open spec fn doubled_quotes(s: Seq<char>) -> Seq<char>
    decreases s.len(),
{
    if s.len() == 0 {
        Seq::empty()
    } else if s.last() == '"' {
        doubled_quotes(s.drop_last()).push('"').push('"')
    } else {
        doubled_quotes(s.drop_last()).push(s.last())
    }
}

/// A token as an FTS5 string: operators inside it are inert.
pub open spec fn quoted(token: Seq<char>) -> Seq<char> {
    seq!['"'] + doubled_quotes(token) + seq!['"']
}

/// The term that the token at position `i` contributes. The last token is a
/// prefix, for as-you-type matching.
pub open spec fn term(tokens: Seq<Seq<char>>, i: int) -> Seq<char> {
    if i == tokens.len() - 1 {
        quoted(tokens[i]) + seq!['*']
    } else {
        quoted(tokens[i])
    }
}

/// The match expression that asks for all the tokens.
pub open spec fn match_expression(tokens: Seq<Seq<char>>) -> Seq<char> {
    joined(Seq::new(tokens.len(), |i: int| term(tokens, i)), " AND "@)
}

fn quote_token(token: &Vec<char>) -> (res: Vec<char>)
    ensures
        res@ == quoted(token@),
{
    let mut out: Vec<char> = Vec::new();
    out.push('"');
    assert(out@ == seq!['"'] + doubled_quotes(token@.take(0)));
    for i in 0..token.len()
        invariant
            out@ == seq!['"'] + doubled_quotes(token@.take(i as int)),
    {
        let ghost t = token@.take(i + 1);
        assert(t.drop_last() == token@.take(i as int));
        assert(t.last() == token@[i as int]);
        if token[i] == '"' {
            out.push('"');
        }
        out.push(token[i]);
        assert(out@ == seq!['"'] + doubled_quotes(t));
    }
    assert(token@.take(token@.len() as int) == token@);
    out.push('"');
    assert(out@ == quoted(token@));
    out
}

/// The match expression for a query's tokens: each quoted, all required.
pub fn fts_expression(tokens: &Vec<Vec<char>>) -> (res: String)
    ensures
        res@ == match_expression(chars_view(tokens@)),
{
    let ghost want = Seq::new(tokens@.len(), |i: int| term(chars_view(tokens@), i));
    let mut terms: Vec<Vec<char>> = Vec::new();
    for i in 0..tokens.len()
        invariant
            want == Seq::new(tokens@.len(), |i: int| term(chars_view(tokens@), i)),
            chars_view(terms@) == want.take(i as int),
    {
        let mut t = quote_token(&tokens[i]);
        if i == tokens.len() - 1 {
            t.push('*');
            assert(t@ == quoted(tokens@[i as int]@) + seq!['*']);
        }
        assert(t@ == want[i as int]);
        let ghost before = terms@;
        terms.push(t);
        assert(chars_view(terms@) == chars_view(before).push(t@));
        assert(want.take(i + 1) == want.take(i as int).push(want[i as int]));
    }
    assert(want.take(want.len() as int) == want);
    let sep = chars_of(" AND ");
    let v = join_chars(&terms, &sep);
    string_of(&v)
}

// ---- the substring pattern ---------------------------------------------

/// One character of a query as it stands in a `LIKE` pattern.
pub open spec fn escaped_char(c: char) -> Seq<char> {
    if c == '%' || c == '_' || c == '\\' {
        seq!['\\', c]
    } else {
        seq![c]
    }
}

/// A query with the wildcards of `LIKE` escaped.
pub open spec fn escaped(s: Seq<char>) -> Seq<char>
    decreases s.len(),
{
    if s.len() == 0 {
        Seq::empty()
    } else {
        escaped_char(s[0]) + escaped(s.drop_first())
    }
}

/// The pattern that a query is looked up with.
pub open spec fn like_pattern(query: Seq<char>) -> Seq<char> {
    seq!['%'] + escaped(query) + seq!['%']
}

/// Two texts one after the other take the bytes of both.
proof fn lemma_encoded_join(a: Seq<char>, b: Seq<char>)
    ensures
        encode_utf8(a + b).len() == encode_utf8(a).len() + encode_utf8(b).len(),
    decreases a.len(),
{
    if a.len() == 0 {
        assert(a + b == b);
    } else {
        assert((a + b).drop_first() == a.drop_first() + b);
        lemma_encoded_join(a.drop_first(), b);
    }
}

/// Escaping at most doubles the bytes of a text.
proof fn lemma_escaped_bytes(s: Seq<char>)
    ensures
        encode_utf8(escaped(s)).len() <= 2 * encode_utf8(s).len(),
    decreases s.len(),
{
    if s.len() > 0 {
        let c = s[0];
        lemma_escaped_bytes(s.drop_first());
        lemma_encoded_join(escaped_char(c), escaped(s.drop_first()));
        lemma_one_char(c);
        if c == '%' || c == '_' || c == '\\' {
            lemma_encoded_join(seq!['\\'], seq![c]);
            assert(seq!['\\'] + seq![c] == seq!['\\', c]);
            lemma_one_char('\\');
        }
    }
}

proof fn lemma_one_char(c: char)
    ensures
        encode_utf8(seq![c]) == encode_scalar(c as u32),
        1 <= encode_utf8(seq![c]).len(),
        (c as u32) <= 127 ==> encode_utf8(seq![c]).len() == 1,
{
    assert(seq![c].drop_first() == Seq::<char>::empty());
    assert(encode_utf8(Seq::<char>::empty()) == Seq::<u8>::empty());
    assert(encode_utf8(seq![c]) == encode_scalar(c as u32) + Seq::<u8>::empty());
}

/// A query of fewer than half the bytes that a pattern may have is always short
/// enough.
pub proof fn law_short_queries_fit(query: Seq<char>)
    requires
        2 * encode_utf8(query).len() + 2 <= MAX_PATTERN_BYTES,
    ensures
        pattern_fits(like_pattern(query)),
{
    lemma_escaped_bytes(query);
    lemma_one_char('%');
    lemma_encoded_join(seq!['%'] + escaped(query), seq!['%']);
    lemma_encoded_join(seq!['%'], escaped(query));
}

/// The bytes that some texts take together.
spec fn weight(words: Seq<Seq<char>>) -> nat
    decreases words.len(),
{
    if words.len() == 0 {
        0
    } else {
        weight(words.drop_last()) + encode_utf8(words.last()).len()
    }
}

proof fn lemma_push_bytes(s: Seq<char>, c: char)
    ensures
        encode_utf8(s.push(c)).len() == encode_utf8(s).len() + encode_utf8(seq![c]).len(),
{
    assert(s.push(c) == s + seq![c]);
    lemma_encoded_join(s, seq![c]);
}

/// The runs of a text take no more bytes than the text, and each takes some.
proof fn lemma_runs_weight(s: Seq<char>, sep: spec_fn(char) -> bool)
    ensures
        runs(s, sep).len() <= weight(runs(s, sep)) <= encode_utf8(s).len(),
    decreases s.len(),
{
    if s.len() > 0 {
        let shorter = s.drop_last();
        let before = runs(shorter, sep);
        let c = s.last();
        lemma_runs_weight(shorter, sep);
        lemma_push_bytes(shorter, c);
        lemma_one_char(c);
        assert(shorter.push(c) == s);
        if !sep(c) {
            if s.len() >= 2 && !sep(s[s.len() - 2]) {
                assert(shorter.last() == s[s.len() - 2]);
                lemma_runs_nonempty(shorter, sep);
                lemma_push_bytes(before.last(), c);
                assert(runs(s, sep).drop_last() == before.drop_last());
            } else {
                assert(runs(s, sep).drop_last() == before);
            }
        }
    }
}

proof fn lemma_quoted_bytes(token: Seq<char>)
    ensures
        encode_utf8(quoted(token)).len() <= 2 * encode_utf8(token).len() + 2,
{
    lemma_doubled_bytes(token);
    lemma_one_char('"');
    lemma_encoded_join(seq!['"'] + doubled_quotes(token), seq!['"']);
    lemma_encoded_join(seq!['"'], doubled_quotes(token));
}

proof fn lemma_doubled_bytes(s: Seq<char>)
    ensures
        encode_utf8(doubled_quotes(s)).len() <= 2 * encode_utf8(s).len(),
    decreases s.len(),
{
    if s.len() > 0 {
        let shorter = s.drop_last();
        lemma_doubled_bytes(shorter);
        lemma_push_bytes(shorter, s.last());
        assert(shorter.push(s.last()) == s);
        lemma_push_bytes(doubled_quotes(shorter), s.last());
        lemma_push_bytes(doubled_quotes(shorter).push('"'), '"');
        lemma_one_char('"');
    }
}

/// The first terms of an expression take at most twice the bytes of their tokens,
/// and three for each.
proof fn lemma_terms_weight(tokens: Seq<Seq<char>>, n: int)
    requires
        0 <= n <= tokens.len(),
    ensures
        weight(Seq::new(tokens.len(), |i: int| term(tokens, i)).take(n)) <= 2 * weight(
            tokens.take(n),
        ) + 3 * n,
    decreases n,
{
    let terms = Seq::new(tokens.len(), |i: int| term(tokens, i));
    if n > 0 {
        lemma_terms_weight(tokens, n - 1);
        assert(terms.take(n).drop_last() == terms.take(n - 1));
        assert(tokens.take(n).drop_last() == tokens.take(n - 1));
        lemma_quoted_bytes(tokens[n - 1]);
        lemma_encoded_join(quoted(tokens[n - 1]), seq!['*']);
        lemma_one_char('*');
    }
}

proof fn lemma_joined_bytes(parts: Seq<Seq<char>>)
    ensures
        encode_utf8(joined(parts, " AND "@)).len() <= weight(parts) + 5 * parts.len(),
    decreases parts.len(),
{
    if parts.len() == 1 {
        assert(weight(parts.drop_last()) == 0);
    } else if parts.len() > 1 {
        let before = joined(parts.drop_last(), " AND "@);
        lemma_joined_bytes(parts.drop_last());
        lemma_encoded_join(before + " AND "@, parts.last());
        lemma_encoded_join(before, " AND "@);
        lemma_and_bytes();
    } else {
        assert(joined(parts, " AND "@) == Seq::<char>::empty());
    }
}

proof fn lemma_and_bytes()
    ensures
        encode_utf8(" AND "@).len() == 5,
{
    reveal_strlit(" AND ");
    lemma_one_char(' ');
    lemma_one_char('A');
    lemma_one_char('N');
    lemma_one_char('D');
    lemma_push_bytes(seq![' '], 'A');
    lemma_push_bytes(seq![' '].push('A'), 'N');
    lemma_push_bytes(seq![' '].push('A').push('N'), 'D');
    lemma_push_bytes(seq![' '].push('A').push('N').push('D'), ' ');
    assert(" AND "@ == seq![' '].push('A').push('N').push('D').push(' '));
}

/// A query of less than a tenth of the bytes that a text may have is always short
/// enough for the full-text index.
pub proof fn law_index_takes_short_queries(query: Seq<char>)
    requires
        10 * encode_utf8(query).len() <= MAX_TEXT_BYTES,
    ensures
        text_fits(match_expression(query_tokens(query))),
{
    let tokens = query_tokens(query);
    let terms = Seq::new(tokens.len(), |i: int| term(tokens, i));
    lemma_runs_weight(query, |c: char| is_separator(c));
    lemma_terms_weight(tokens, tokens.len() as int);
    assert(terms.take(tokens.len() as int) == terms);
    assert(tokens.take(tokens.len() as int) == tokens);
    lemma_joined_bytes(terms);
}

/// Escape the wildcards of `LIKE`.
pub fn escape_like(s: &str) -> (res: Vec<char>)
    ensures
        res@ == escaped(s@),
{
    let v = chars_of(s);
    let mut out: Vec<char> = Vec::new();
    assert(v@.skip(0) == v@);
    for i in 0..v.len()
        invariant
            out@ + escaped(v@.skip(i as int)) == escaped(v@),
    {
        let c = v[i];
        let ghost before = out@;
        let ghost rest = v@.skip(i as int);
        assert(rest[0] == c);
        assert(rest.drop_first() == v@.skip(i + 1));
        if c == '%' || c == '_' || c == '\\' {
            out.push('\\');
        }
        out.push(c);
        assert(out@ == before + escaped_char(c));
        assert(out@ + escaped(v@.skip(i + 1)) == before + escaped(rest));
    }
    assert(v@.skip(v@.len() as int).len() == 0);
    assert(out@ + Seq::<char>::empty() == out@);
    out
}

/// The pattern that a query is looked up with: the query, literally, anywhere.
pub fn like_pattern_for(query: &str) -> (res: String)
    ensures
        res@ == like_pattern(query@),
{
    let mut v: Vec<char> = Vec::new();
    v.push('%');
    let body = escape_like(query);
    append_chars(&mut v, &body);
    v.push('%');
    assert(v@ == like_pattern(query@));
    string_of(&v)
}

/// Text matching with `%` for any run of characters, `_` for any one character
/// and a backslash that makes the next character literal. ASCII letters match
/// in either case.
pub open spec fn like(pattern: Seq<char>, text: Seq<char>) -> bool
    decreases pattern.len() + text.len(),
{
    if pattern.len() == 0 {
        text.len() == 0
    } else if pattern[0] == '%' {
        ||| like(pattern.drop_first(), text)
        ||| text.len() > 0 && like(pattern, text.drop_first())
    } else if pattern[0] == '_' {
        text.len() > 0 && like(pattern.drop_first(), text.drop_first())
    } else if pattern[0] == '\\' {
        &&& pattern.len() >= 2
        &&& text.len() > 0
        &&& lower(pattern[1]) == lower(text[0])
        &&& like(pattern.skip(2), text.drop_first())
    } else {
        &&& text.len() > 0
        &&& lower(pattern[0]) == lower(text[0])
        &&& like(pattern.drop_first(), text.drop_first())
    }
}

/// Free of the characters that SQLite reads as the end of a string or replaces
/// while comparing.
pub open spec fn legible(s: Seq<char>) -> bool {
    forall|i: int|
        0 <= i < s.len() ==> (#[trigger] s[i]) != '\0' && s[i] != '\u{fffe}' && s[i] != '\u{ffff}'
}

/// The pattern of a legible query is legible.
pub proof fn lemma_pattern_legible(query: Seq<char>)
    requires
        legible(query),
    ensures
        legible(like_pattern(query)),
{
    lemma_escaped_legible(query);
    let body = escaped(query);
    let pattern = like_pattern(query);
    assert forall|i: int| 0 <= i < pattern.len() implies (#[trigger] pattern[i]) != '\0'
        && pattern[i] != '\u{fffe}' && pattern[i] != '\u{ffff}' by {
        if 0 < i <= body.len() {
            assert(pattern[i] == body[i - 1]);
        }
    }
}

proof fn lemma_escaped_legible(query: Seq<char>)
    requires
        legible(query),
    ensures
        legible(escaped(query)),
    decreases query.len(),
{
    if query.len() > 0 {
        let rest = query.drop_first();
        assert forall|i: int| 0 <= i < rest.len() implies (#[trigger] rest[i]) != '\0' && rest[i]
            != '\u{fffe}' && rest[i] != '\u{ffff}' by {
            assert(rest[i] == query[i + 1]);
        }
        lemma_escaped_legible(rest);
        let head = escaped_char(query[0]);
        let tail = escaped(rest);
        let all = escaped(query);
        assert(query[0] != '\0' && query[0] != '\u{fffe}' && query[0] != '\u{ffff}');
        assert forall|i: int| 0 <= i < all.len() implies (#[trigger] all[i]) != '\0' && all[i]
            != '\u{fffe}' && all[i] != '\u{ffff}' by {
            if i < head.len() {
                assert(all[i] == head[i]);
            } else {
                assert(all[i] == tail[i - head.len()]);
            }
        }
    }
}

/// A pattern of an escaped query and a final `%` matches exactly the texts that
/// start with the query, whatever the case of ASCII letters.
proof fn lemma_escaped_prefix(query: Seq<char>, text: Seq<char>)
    ensures
        like(escaped(query) + seq!['%'], text) <==> stands_at(lowered(text), lowered(query), 0),
    decreases query.len(),
{
    let pattern = escaped(query) + seq!['%'];
    if query.len() == 0 {
        assert(pattern == seq!['%']);
        lemma_percent_matches_all(text);
        assert(lowered(text).subrange(0, 0) == lowered(query));
    } else {
        let rest = query.drop_first();
        let tail = escaped(rest) + seq!['%'];
        assert(pattern == escaped_char(query[0]) + tail);
        if query[0] == '%' || query[0] == '_' || query[0] == '\\' {
            assert(pattern[0] == '\\');
            assert(pattern[1] == query[0]);
            assert(pattern.skip(2) == tail);
        } else {
            assert(pattern[0] == query[0]);
            assert(pattern.drop_first() == tail);
        }
        assert(like(pattern, text) <==> (text.len() > 0 && lower(query[0]) == lower(text[0])
            && like(tail, text.drop_first())));
        if text.len() > 0 {
            lemma_escaped_prefix(rest, text.drop_first());
            assert(lowered(text.drop_first()) == lowered(text).drop_first());
            assert(lowered(rest) == lowered(query).drop_first());
            let n = query.len() as int;
            if stands_at(lowered(text), lowered(query), 0) {
                assert(lowered(text).subrange(0, n)[0] == lowered(query)[0]);
                assert(lowered(text).drop_first().subrange(0, n - 1) =~= lowered(text).subrange(
                    0,
                    n,
                ).drop_first());
            }
            if lower(query[0]) == lower(text[0]) && stands_at(
                lowered(text.drop_first()),
                lowered(rest),
                0,
            ) {
                assert forall|i: int| 0 <= i < n implies lowered(text).subrange(0, n)[i]
                    == lowered(query)[i] by {
                    if i > 0 {
                        assert(lowered(text.drop_first()).subrange(0, n - 1)[i - 1] == lowered(
                            rest,
                        )[i - 1]);
                    }
                }
                assert(lowered(text).subrange(0, n) =~= lowered(query));
            }
        }
    }
}

/// A lone `%` matches every text.
proof fn lemma_percent_matches_all(text: Seq<char>)
    ensures
        like(seq!['%'], text),
    decreases text.len(),
{
    assert(seq!['%'].drop_first() == Seq::<char>::empty());
    if text.len() == 0 {
        assert(like(seq!['%'].drop_first(), text));
    } else {
        lemma_percent_matches_all(text.drop_first());
    }
}

/// A query looked up by its pattern finds exactly the texts that contain it,
/// letter case aside: wildcards in the query never widen the match.
pub proof fn law_pattern_is_literal(query: Seq<char>, text: Seq<char>)
    ensures
        like(like_pattern(query), text) <==> has_part(lowered(text), lowered(query)),
    decreases text.len(),
{
    let pattern = like_pattern(query);
    let tail = escaped(query) + seq!['%'];
    assert(pattern[0] == '%');
    assert(pattern.drop_first() == tail);
    lemma_escaped_prefix(query, text);
    let low = lowered(text);
    let part = lowered(query);
    if text.len() > 0 {
        law_pattern_is_literal(query, text.drop_first());
        let low_rest = lowered(text.drop_first());
        assert(low_rest == low.drop_first());
        assert forall|k: int| stands_at(low_rest, part, k) implies stands_at(low, part, k + 1) by {
            assert(low_rest.subrange(k, k + part.len()) =~= low.subrange(k + 1, k + 1 + part.len()));
        }
        assert forall|k: int| k > 0 && stands_at(low, part, k) implies stands_at(
            low_rest,
            part,
            k - 1,
        ) by {
            assert(low_rest.subrange(k - 1, k - 1 + part.len()) =~= low.subrange(k, k + part.len()));
        }
        if has_part(low, part) {
            let k = choose|k: int| stands_at(low, part, k);
            if k > 0 {
                assert(stands_at(low_rest, part, k - 1));
            }
        }
        if has_part(low_rest, part) {
            let k = choose|k: int| stands_at(low_rest, part, k);
            assert(stands_at(low, part, k + 1));
        }
    } else if has_part(low, part) {
        let k = choose|k: int| stands_at(low, part, k);
        assert(k == 0);
    }
}

} // verus!
