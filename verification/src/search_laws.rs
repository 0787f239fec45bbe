//! What a search asks for and what it finds.

use vstd::prelude::*;
use crate::clip::ClipView;
use crate::model::{
    clips_of_rows, has_id, id_index, lemma_id_index, page, ranked, ranked_rows, RowView,
    StoreView,
};
use crate::search::{
    doubled_quotes, escaped, like_pattern, match_expression, query_tokens,
};
use crate::store::{exact_hits, found_by_index, is_hit, matches_index};
use crate::text::{is_alnum, joined};
use crate::text_laws::{law_run_stands_alone, law_runs_come_apart, law_separators_are_no_run};
use crate::trusted::fts5_matches;

verus! {

// ---- the words of a query ----------------------------------------------

/// Whether a character belongs to a word: a letter or digit, an underscore or a
/// dash.
pub open spec fn in_word(c: char) -> bool {
    is_alnum(c) || c == '_' || c == '-'
}

/// A character outside words parts a query in two: its words are those of the one
/// part and then those of the other.
pub proof fn law_query_comes_apart(a: Seq<char>, c: char, b: Seq<char>)
    requires
        !in_word(c),
    ensures
        query_tokens(a.push(c) + b) == query_tokens(a) + query_tokens(b),
{
    law_runs_come_apart(a, c, b, |c: char| crate::search::is_separator(c));
}

/// A query of word characters alone is one word, taken literally, and a query
/// without any has none.
pub proof fn law_query_words_are_literal(query: Seq<char>)
    ensures
        query.len() > 0 && (forall|i: int| 0 <= i < query.len() ==> in_word(#[trigger] query[i]))
            ==> query_tokens(query) == seq![query],
        (forall|i: int| 0 <= i < query.len() ==> !in_word(#[trigger] query[i])) ==> query_tokens(
            query,
        ).len() == 0,
{
    let sep = |c: char| crate::search::is_separator(c);
    if query.len() > 0 && (forall|i: int|
        0 <= i < query.len() ==> in_word(#[trigger] query[i])) {
        law_run_stands_alone(query, sep);
    }
    if forall|i: int| 0 <= i < query.len() ==> !in_word(#[trigger] query[i]) {
        law_separators_are_no_run(query, sep);
    }
}

/// Within ASCII the word characters are the letters, the digits, the underscore
/// and the dash. So quotes, stars, brackets, carets and colons, which the query
/// language gives a meaning, never get into a word.
pub proof fn law_syntax_is_no_word(c: char)
    requires
        (c as u32) < 128,
    ensures
        in_word(c) <==> ('a' <= c <= 'z' || 'A' <= c <= 'Z' || '0' <= c <= '9' || c == '_' || c
            == '-'),
        c == '"' || c == '*' || c == '(' || c == ')' || c == '^' || c == ':' || c == ' ' || c
            == '+' || c == '\0' ==> !in_word(c),
{
}

// ---- the match expression ----------------------------------------------

/// One word is asked for as a prefix: the word in quotes, and a star.
pub proof fn law_single_word_is_a_prefix(word: Seq<char>)
    requires
        !word.contains('"'),
    ensures
        match_expression(seq![word]) == seq!['"'] + word + seq!['"', '*'],
{
    lemma_nothing_doubled(word);
    let terms = Seq::new(1, |i: int| crate::search::term(seq![word], i));
    assert(terms.len() == 1);
    assert(terms[0] =~= seq!['"'] + word + seq!['"', '*']);
}

/// A further word in front is required as well: it stands in quotes, exactly as it
/// is, before everything that was asked for already.
pub proof fn law_every_word_is_required(word: Seq<char>, rest: Seq<Seq<char>>)
    requires
        !word.contains('"'),
        rest.len() > 0,
    ensures
        match_expression(seq![word] + rest) == seq!['"'] + word + "\" AND "@ + match_expression(
            rest,
        ),
{
    lemma_nothing_doubled(word);
    let all = seq![word] + rest;
    let terms = Seq::new(all.len(), |i: int| crate::search::term(all, i));
    let fewer = Seq::new(rest.len(), |i: int| crate::search::term(rest, i));
    assert(terms.drop_first() =~= fewer) by {
        assert forall|i: int| 0 <= i < fewer.len() implies terms.drop_first()[i] == fewer[i] by {
            assert(all[i + 1] == rest[i]);
        }
    }
    assert(terms[0] =~= seq!['"'] + word + seq!['"']);
    lemma_joined_front(terms, " AND "@);
    reveal_strlit(" AND ");
    reveal_strlit("\" AND ");
    assert(seq!['"'] + " AND "@ =~= "\" AND "@);
    assert(terms[0] + " AND "@ + joined(fewer, " AND "@) =~= seq!['"'] + word + "\" AND "@
        + joined(fewer, " AND "@));
}

/// However many words there are, the expression ends in the star that makes the
/// last one a prefix, right behind that word's closing quote, and has no other.
pub proof fn law_last_word_is_a_prefix(words: Seq<Seq<char>>)
    requires
        words.len() > 0,
        forall|i: int|
            0 <= i < words.len() ==> !(#[trigger] words[i]).contains('"') && !words[i].contains(
                '*',
            ),
    ensures
        ({
            let expr = match_expression(words);
            let last = seq!['"'] + words.last() + seq!['"', '*'];
            &&& expr.len() >= last.len()
            &&& expr.skip(expr.len() - last.len()) == last
            &&& !expr.drop_last().contains('*')
        }),
    decreases words.len(),
{
    let expr = match_expression(words);
    let last = seq!['"'] + words.last() + seq!['"', '*'];
    if words.len() == 1 {
        assert(words =~= seq![words[0]]);
        law_single_word_is_a_prefix(words[0]);
        assert(expr.skip(0) =~= last);
        lemma_no_star(words[0], seq!['"']);
        assert(expr.drop_last() =~= seq!['"'] + words[0] + seq!['"']);
    } else {
        let rest = words.drop_first();
        assert(words =~= seq![words[0]] + rest);
        assert forall|i: int| 0 <= i < rest.len() implies !(#[trigger] rest[i]).contains('"')
            && !rest[i].contains('*') by {
            assert(rest[i] == words[i + 1]);
        }
        law_every_word_is_required(words[0], rest);
        law_last_word_is_a_prefix(rest);
        assert(rest.last() == words.last());
        let head = seq!['"'] + words[0] + "\" AND "@;
        let tail = match_expression(rest);
        assert(expr == head + tail);
        assert(expr.skip(expr.len() - last.len()) =~= tail.skip(tail.len() - last.len()));
        reveal_strlit("\" AND ");
        lemma_no_star(words[0], "\" AND "@);
        assert(expr.drop_last() =~= head + tail.drop_last());
        if expr.drop_last().contains('*') {
            let k = expr.drop_last().index_of('*');
            if k < head.len() {
                assert(head[k] == '*');
                assert(head.contains('*'));
            } else {
                assert(tail.drop_last()[k - head.len()] == '*');
                assert(tail.drop_last().contains('*'));
            }
        }
    }
}

proof fn lemma_no_star(word: Seq<char>, end: Seq<char>)
    requires
        !word.contains('*'),
        forall|i: int| 0 <= i < end.len() ==> #[trigger] end[i] != '*',
    ensures
        !(seq!['"'] + word + end).contains('*'),
{
    let all = seq!['"'] + word + end;
    if all.contains('*') {
        let k = all.index_of('*');
        if 1 <= k < 1 + word.len() {
            assert(word[k - 1] == '*');
        } else if k >= 1 + word.len() {
            assert(end[k - 1 - word.len()] == '*');
        }
    }
}

/// A quote inside a word is doubled, so that it does not end it; every other
/// character stays as it is.
pub proof fn law_only_quotes_are_doubled(s: Seq<char>, c: char)
    ensures
        doubled_quotes(s.push(c)) == doubled_quotes(s) + (if c == '"' {
            seq!['"', '"']
        } else {
            seq![c]
        }),
        doubled_quotes(Seq::<char>::empty()) == Seq::<char>::empty(),
{
    assert(s.push(c).drop_last() =~= s);
    assert(doubled_quotes(s.push(c)) =~= doubled_quotes(s) + (if c == '"' {
        seq!['"', '"']
    } else {
        seq![c]
    }));
}

proof fn lemma_nothing_doubled(s: Seq<char>)
    requires
        !s.contains('"'),
    ensures
        doubled_quotes(s) == s,
    decreases s.len(),
{
    if s.len() > 0 {
        assert(s.contains(s.last()));
        if s.drop_last().contains('"') {
            let k = s.drop_last().index_of('"');
            assert(s[k] == '"');
        }
        lemma_nothing_doubled(s.drop_last());
        assert(s.drop_last().push(s.last()) =~= s);
    }
}

/// The first piece of a joined list stands before the join of the others.
proof fn lemma_joined_front(parts: Seq<Seq<char>>, sep: Seq<char>)
    requires
        parts.len() >= 2,
    ensures
        joined(parts, sep) == parts[0] + sep + joined(parts.drop_first(), sep),
    decreases parts.len(),
{
    if parts.len() == 2 {
        assert(parts.drop_last() =~= seq![parts[0]]);
        assert(parts.drop_first() =~= seq![parts[1]]);
        assert(joined(seq![parts[0]], sep) == parts[0]);
        assert(joined(seq![parts[1]], sep) == parts[1]);
    } else {
        let head = parts.drop_last();
        lemma_joined_front(head, sep);
        assert(head.drop_first() =~= parts.drop_first().drop_last());
        assert(head[0] == parts[0]);
        assert(parts.drop_first().last() == parts.last());
        assert(joined(parts, sep) =~= parts[0] + sep + joined(parts.drop_first(), sep));
    }
}

// ---- the pattern of a scan ---------------------------------------------

/// In a pattern the wildcards and the escape character itself stand behind an
/// escape; everything else stands for itself.
pub proof fn law_wildcards_are_escaped(c: char, rest: Seq<char>)
    ensures
        escaped(seq![c] + rest) == (if c == '%' || c == '_' || c == '\\' {
            seq!['\\', c]
        } else {
            seq![c]
        }) + escaped(rest),
        escaped(Seq::<char>::empty()) == Seq::<char>::empty(),
{
    assert((seq![c] + rest).drop_first() =~= rest);
    assert((seq![c] + rest)[0] == c);
}

/// A query may stand anywhere in a text: its pattern begins and ends with a
/// wildcard for any run of characters.
pub proof fn law_query_stands_anywhere(query: Seq<char>)
    ensures
        like_pattern(query)[0] == '%',
        like_pattern(query).last() == '%',
        like_pattern(query).len() == escaped(query).len() + 2,
        like_pattern(query).subrange(1, like_pattern(query).len() - 1) == escaped(query),
{
    assert(like_pattern(query).subrange(1, like_pattern(query).len() - 1) =~= escaped(query));
}

// ---- what is found -----------------------------------------------------

/// Whether a row's text satisfies a match expression.
pub open spec fn satisfies(row: RowView, expr: Seq<char>) -> bool {
    row.clip.text matches Some(text) && fts5_matches(text, expr)
}

/// A search through the index finds nothing but clips whose text satisfies the
/// expression, none of them twice, no more than asked for; and where there is room
/// for all, it finds all.
pub proof fn law_index_search_is_exact(
    v: StoreView,
    expr: Seq<char>,
    limit: usize,
    found: Seq<ClipView>,
)
    requires
        v.wf(),
        found_by_index(v.rows, expr, limit, found),
    ensures
        found.len() <= limit,
        forall|i: int|
            0 <= i < found.len() ==> exists|k: int|
                0 <= k < v.rows.len() && (#[trigger] v.rows[k]).clip == #[trigger] found[i]
                    && satisfies(v.rows[k], expr),
        forall|i: int, j: int|
            0 <= i < j < found.len() ==> (#[trigger] found[i]).id != (#[trigger] found[j]).id,
        found.len() < limit ==> forall|k: int|
            0 <= k < v.rows.len() && satisfies(#[trigger] v.rows[k], expr) ==> found.contains(
                v.rows[k].clip,
            ),
{
    let rows = v.rows;
    let hits = choose|hits: Seq<(i64, i64)>| #[trigger]
        exact_hits(rows, hits, expr) && found == clips_of_rows(
            page(ranked_rows(rows, hits), limit, 0),
        );
    let order = ranked(rows, hits);
    let all = ranked_rows(rows, hits);
    lemma_ranked(v, hits);
    assert(found.len() <= all.len());
    assert forall|i: int| 0 <= i < found.len() implies #[trigger] found[i] == rows[order[i].0].clip by {
        assert(all[i] == rows[order[i].0]);
    }
    assert forall|i: int| 0 <= i < found.len() implies exists|k: int|
        0 <= k < rows.len() && (#[trigger] rows[k]).clip == #[trigger] found[i] && satisfies(
            rows[k],
            expr,
        ) by {
        let k = order[i].0;
        let id = rows[k].clip.id;
        assert(is_hit(hits, id));
        assert(matches_index(rows, id, expr));
        lemma_id_index(rows, v.last_clip_id, k);
        assert(rows[k].clip == found[i]);
    }
    assert forall|i: int, j: int| 0 <= i < j < found.len() implies (#[trigger] found[i]).id != (
    #[trigger] found[j]).id by {
        let a = order[i].0;
        let b = order[j].0;
        assert(a != b);
        assert(rows[a].clip.id != rows[b].clip.id);
    }
    if found.len() < limit {
        assert(found.len() == all.len());
        assert forall|k: int| 0 <= k < rows.len() && satisfies(
            #[trigger] rows[k],
            expr,
        ) implies found.contains(rows[k].clip) by {
            let id = rows[k].clip.id;
            lemma_id_index(rows, v.last_clip_id, k);
            assert(matches_index(rows, id, expr));
            assert(is_hit(hits, id));
            let h = choose|h: int| 0 <= h < hits.len() && (#[trigger] hits[h]).0 == id;
            assert(exists|p: int| 0 <= p < order.len() && (#[trigger] order[p]).0 == id_index(rows, id));
            let p = choose|p: int|
                0 <= p < order.len() && (#[trigger] order[p]).0 == id_index(rows, id);
            assert(found[p] == rows[k].clip);
        }
    }
}

/// In what a search through the index finds, pinned clips stand first.
pub proof fn law_index_search_shows_pinned_first(
    v: StoreView,
    expr: Seq<char>,
    limit: usize,
    found: Seq<ClipView>,
    i: int,
    j: int,
)
    requires
        v.wf(),
        found_by_index(v.rows, expr, limit, found),
        0 <= i < j < found.len(),
        found[j].pinned,
    ensures
        found[i].pinned,
{
    let rows = v.rows;
    let hits = choose|hits: Seq<(i64, i64)>| #[trigger]
        exact_hits(rows, hits, expr) && found == clips_of_rows(
            page(ranked_rows(rows, hits), limit, 0),
        );
    let order = ranked(rows, hits);
    let all = ranked_rows(rows, hits);
    crate::laws::law_ranking_is_sorted(v, hits, i, j);
    assert(all[i] == rows[order[i].0] && all[j] == rows[order[j].0]);
    assert(found[i] == all[i].clip && found[j] == all[j].clip);
}

/// Of two hits, the pinned one comes first; of two alike in that, the more
/// relevant; of two alike in both, the one used later.
pub proof fn law_hits_go_by_pin_relevance_and_use(
    v: StoreView,
    hits: Seq<(i64, i64)>,
    i: int,
    j: int,
)
    requires
        v.wf(),
        0 <= i < j < ranked(v.rows, hits).len(),
    ensures
        ({
            let (a, x) = ranked(v.rows, hits)[i];
            let (b, y) = ranked(v.rows, hits)[j];
            let first = v.rows[a];
            let second = v.rows[b];
            &&& second.clip.pinned ==> first.clip.pinned
            &&& first.clip.pinned == second.clip.pinned ==> x <= y
            &&& first.clip.pinned == second.clip.pinned && x == y ==> first.seq >= second.seq
        }),
{
    crate::laws::law_ranking_is_sorted(v, hits, i, j);
}

/// Ranking keeps every hit that has a row, once, with its level.
pub proof fn law_ranking_keeps_every_hit(v: StoreView, hits: Seq<(i64, i64)>, h: int)
    requires
        v.wf(),
        0 <= h < hits.len(),
        has_id(v.rows, hits[h].0),
    ensures
        ranked(v.rows, hits).contains((id_index(v.rows, hits[h].0), hits[h].1 as int)),
        ranked(v.rows, hits).len() <= hits.len(),
    decreases hits.len(),
{
    let before = ranked(v.rows, hits.drop_last());
    let (id, level) = hits.last();
    lemma_ranked_len(v, hits.drop_last());
    lemma_ranked_len(v, hits);
    assert forall|a: int, b: int| 0 <= a < b < before.len() implies !crate::model::ranks_before(
        v.rows,
        #[trigger] before[b],
        #[trigger] before[a],
    ) by {
        crate::laws::law_ranking_is_sorted(v, hits.drop_last(), a, b);
    }
    if has_id(v.rows, id) {
        crate::laws::lemma_placed(v.rows, before, (id_index(v.rows, id), level as int));
    }
    if h < hits.len() - 1 {
        assert(hits.drop_last()[h] == hits[h]);
        law_ranking_keeps_every_hit(v, hits.drop_last(), h);
        let entry = (id_index(v.rows, hits[h].0), hits[h].1 as int);
        let k = before.index_of(entry);
        assert(before[k] == entry);
    }
}

proof fn lemma_ranked_len(v: StoreView, hits: Seq<(i64, i64)>)
    requires
        v.wf(),
    ensures
        ranked(v.rows, hits).len() <= hits.len(),
    decreases hits.len(),
{
    if hits.len() > 0 {
        let before = ranked(v.rows, hits.drop_last());
        lemma_ranked_len(v, hits.drop_last());
        assert forall|a: int, b: int| 0 <= a < b < before.len() implies !crate::model::ranks_before(
            v.rows,
            #[trigger] before[b],
            #[trigger] before[a],
        ) by {
            crate::laws::law_ranking_is_sorted(v, hits.drop_last(), a, b);
        }
        let (id, level) = hits.last();
        if has_id(v.rows, id) {
            crate::laws::lemma_placed(v.rows, before, (id_index(v.rows, id), level as int));
        }
    }
}

/// What ranking makes of hits whose ids are all different: every position is that
/// of a hit's row, and none occurs twice.
proof fn lemma_ranked(v: StoreView, hits: Seq<(i64, i64)>)
    requires
        v.wf(),
        forall|i: int, j: int|
            0 <= i < j < hits.len() ==> (#[trigger] hits[i]).0 != (#[trigger] hits[j]).0,
    ensures
        forall|p: int|
            0 <= p < ranked(v.rows, hits).len() ==> 0 <= (#[trigger] ranked(v.rows, hits)[p]).0
                < v.rows.len() && is_hit(hits, v.rows[ranked(v.rows, hits)[p].0].clip.id),
        forall|p: int, q: int|
            0 <= p < q < ranked(v.rows, hits).len() ==> (#[trigger] ranked(v.rows, hits)[p]).0 != (
            #[trigger] ranked(v.rows, hits)[q]).0,
        forall|h: int|
            0 <= h < hits.len() && has_id(v.rows, (#[trigger] hits[h]).0) ==> exists|p: int|
                0 <= p < ranked(v.rows, hits).len() && (#[trigger] ranked(v.rows, hits)[p]).0
                    == id_index(v.rows, hits[h].0),
    decreases hits.len(),
{
    let rows = v.rows;
    if hits.len() > 0 {
        let fewer = hits.drop_last();
        let before = ranked(rows, fewer);
        let res = ranked(rows, hits);
        let (id, level) = hits.last();
        assert forall|i: int, j: int| 0 <= i < j < fewer.len() implies (#[trigger] fewer[i]).0 != (
        #[trigger] fewer[j]).0 by {
            assert(hits[i].0 != hits[j].0);
        }
        lemma_ranked(v, fewer);
        assert forall|x: i64| is_hit(fewer, x) implies #[trigger] is_hit(hits, x) by {
            let h = choose|h: int| 0 <= h < fewer.len() && (#[trigger] fewer[h]).0 == x;
            assert(hits[h].0 == x);
        }
        assert forall|a: int, b: int| 0 <= a < b < before.len() implies !crate::model::ranks_before(
            rows,
            #[trigger] before[b],
            #[trigger] before[a],
        ) by {
            crate::laws::law_ranking_is_sorted(v, fewer, a, b);
        }
        if has_id(rows, id) {
            let hit = (id_index(rows, id), level as int);
            crate::laws::lemma_placed(rows, before, hit);
            let k = id_index(rows, id);
            assert(0 <= k < rows.len() && rows[k].clip.id == id);
            assert(hits[hits.len() - 1].0 == id);
            assert(is_hit(hits, id));
            assert forall|p: int| 0 <= p < before.len() implies (#[trigger] before[p]).0 != k by {
                if before[p].0 == k {
                    let h = choose|h: int| 0 <= h < fewer.len() && (#[trigger] fewer[h]).0 == id;
                    assert(hits[h].0 != hits[hits.len() - 1].0);
                }
            }
            lemma_placed_distinct(rows, before, hit);
            assert forall|h: int| 0 <= h < hits.len() && has_id(
                rows,
                (#[trigger] hits[h]).0,
            ) implies exists|p: int|
                0 <= p < res.len() && (#[trigger] res[p]).0 == id_index(rows, hits[h].0) by {
                if h < fewer.len() {
                    assert(fewer[h] == hits[h]);
                    let p = choose|p: int|
                        0 <= p < before.len() && (#[trigger] before[p]).0 == id_index(
                            rows,
                            hits[h].0,
                        );
                    let q = res.index_of(before[p]);
                    assert(res[q] == before[p]);
                } else {
                    let q = res.index_of(hit);
                    assert(res[q] == hit);
                }
            }
        } else {
            assert forall|h: int| 0 <= h < hits.len() && has_id(
                rows,
                (#[trigger] hits[h]).0,
            ) implies exists|p: int|
                0 <= p < res.len() && (#[trigger] res[p]).0 == id_index(rows, hits[h].0) by {
                assert(fewer[h] == hits[h]);
            }
        }
    }
}

proof fn lemma_placed_distinct(rows: Seq<RowView>, sorted: Seq<(int, int)>, hit: (int, int))
    requires
        forall|p: int, q: int|
            0 <= p < q < sorted.len() ==> (#[trigger] sorted[p]).0 != (#[trigger] sorted[q]).0,
        forall|p: int| 0 <= p < sorted.len() ==> (#[trigger] sorted[p]).0 != hit.0,
    ensures
        forall|p: int, q: int|
            0 <= p < q < crate::model::placed(rows, sorted, hit).len() ==> (
            #[trigger] crate::model::placed(rows, sorted, hit)[p]).0 != (
            #[trigger] crate::model::placed(rows, sorted, hit)[q]).0,
        forall|p: int|
            0 <= p < crate::model::placed(rows, sorted, hit).len() ==> {
                let e = #[trigger] crate::model::placed(rows, sorted, hit)[p];
                e == hit || sorted.contains(e)
            },
    decreases sorted.len(),
{
    let res = crate::model::placed(rows, sorted, hit);
    if sorted.len() > 0 && crate::model::ranks_before(rows, hit, sorted.last()) {
        let head = sorted.drop_last();
        assert forall|p: int, q: int| 0 <= p < q < head.len() implies (#[trigger] head[p]).0 != (
        #[trigger] head[q]).0 by {
            assert(sorted[p].0 != sorted[q].0);
        }
        assert forall|p: int| 0 <= p < head.len() implies (#[trigger] head[p]).0 != hit.0 by {
            assert(sorted[p].0 != hit.0);
        }
        lemma_placed_distinct(rows, head, hit);
        let inner = crate::model::placed(rows, head, hit);
        assert(res == inner.push(sorted.last()));
        assert forall|p: int| 0 <= p < inner.len() implies (#[trigger] inner[p]).0
            != sorted.last().0 by {
            if inner[p] != hit {
                let k = head.index_of(inner[p]);
                assert(head[k] == inner[p]);
                assert(sorted[k].0 != sorted[sorted.len() - 1].0);
            } else {
                assert(sorted[sorted.len() - 1].0 != hit.0);
            }
        }
        assert forall|p: int| 0 <= p < res.len() implies {
            let e = #[trigger] res[p];
            e == hit || sorted.contains(e)
        } by {
            if p < inner.len() {
                assert(res[p] == inner[p]);
                if inner[p] != hit {
                    let k = head.index_of(inner[p]);
                    assert(sorted[k] == inner[p]);
                }
            } else {
                assert(sorted[sorted.len() - 1] == res[p]);
            }
        }
    } else {
        assert(res == sorted.push(hit));
        assert forall|p: int| 0 <= p < res.len() implies {
            let e = #[trigger] res[p];
            e == hit || sorted.contains(e)
        } by {
            if p < sorted.len() {
                assert(sorted[p] == res[p]);
            }
        }
    }
}

} // verus!
