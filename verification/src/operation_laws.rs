//! What calls of the history's operations do, from call to result.

use vstd::prelude::*;
use crate::capture_laws::{content_size, has_room, loose, may_be_stored, recent_enough, rivals};
use crate::clip::{clip_views, Clip, ClipKind, NewClip};
use crate::config::Config;
use crate::error::Error;
use crate::history_laws::{
    law_clear_takes_what_is_loose, law_delete_takes_one_clip, law_list_holds_what_was_asked_for,
    law_page_is_a_window, law_pin_sets_the_flag_alone, law_use_moves_one_row,
};
use crate::model::{
    has_id, has_member, has_name, id_index, lemma_id_index, listing, name_index, Member, RowView,
};
use crate::search::{fts_expression, match_expression, query_tokens, tokenize};
use crate::search_laws::satisfies;
use crate::store::{InsertOutcome, Pinboard, Stats, Store};
use crate::text::chars_view;

verus! {

// ---- capturing ---------------------------------------------------------

/// Offering a clip to the store: what may not be stored is skipped and changes
/// nothing; known content is used again; anything else is stored as it is, on top
/// of all that was there.
pub proof fn law_offered_clip_is_skipped_used_or_stored(
    s: &mut Store,
    clip: &NewClip,
    cfg: &Config,
    now: i64,
    res: std::result::Result<InsertOutcome, Error>,
)
    requires
        old(s).wf(),
        call_ensures(Store::insert_at, (s, clip, cfg, now), res),
        content_size(clip@) <= 1_000_000_000,
        old(s)@.last_clip_id < i64::MAX,
        has_room(old(s)@),
        forall|i: int|
            0 <= i < old(s)@.rows.len() ==> (#[trigger] old(s)@.rows[i]).clip.use_count < i64::MAX,
    ensures
        !may_be_stored(clip@, cfg@) ==> res is Ok && res->Ok_0 is Skipped && final(s)@ == old(s)@,
        may_be_stored(clip@, cfg@) && (exists|k: int|
            0 <= k < old(s)@.rows.len() && (#[trigger] old(s)@.rows[k]).clip.hash
                == clip@.digest()) ==> res is Ok && res->Ok_0 is Deduped && final(s)@.rows.len()
            == old(s)@.rows.len() && res->Ok_0->Deduped_0@ == final(s)@.rows.last().clip
            && final(s)@.rows.last().clip.hash == clip@.digest(),
        may_be_stored(clip@, cfg@) && (forall|k: int|
            0 <= k < old(s)@.rows.len() ==> (#[trigger] old(s)@.rows[k]).clip.hash
                != clip@.digest()) ==> {
            let row = final(s)@.rows.last();
            &&& res is Ok
            &&& res->Ok_0 is Stored
            &&& res->Ok_0->Stored_0@ == row.clip
            &&& final(s)@.rows.drop_last() == old(s)@.rows
            &&& final(s)@.rows.len() == old(s)@.rows.len() + 1
            &&& row.clip.text == clip@.text
            &&& row.bytes == clip@.bytes
            &&& row.clip.kind == clip@.kind
            &&& row.clip.mime == clip@.mime
            &&& row.clip.source_app == clip@.source_app
            &&& row.clip.source_bundle_id == clip@.source_bundle_id
            &&& row.clip.byte_len == content_size(clip@)
            &&& row.clip.created_at == now
            &&& row.clip.last_used_at == now
            &&& row.clip.use_count == 1
            &&& !row.clip.pinned
        },
{
    let v = old(s)@;
    crate::capture_laws::law_refused_exactly_where_barred(v, clip@, cfg@, now);
    if may_be_stored(clip@, cfg@) {
        if exists|k: int|
            0 <= k < v.rows.len() && (#[trigger] v.rows[k]).clip.hash == clip@.digest() {
            let k = choose|k: int|
                0 <= k < v.rows.len() && (#[trigger] v.rows[k]).clip.hash == clip@.digest();
            crate::capture_laws::law_known_content_is_used_again(v, clip@, cfg@, now, k);
        } else {
            crate::capture_laws::law_new_content_is_stored(v, clip@, cfg@, now);
            crate::laws::law_stored_clip_reads_back(v, clip@, cfg@, now);
            let after = v.apply(v.offer(clip@, cfg@, now)->Add_0);
            crate::model::lemma_add_wf(v, after.rows.last());
            lemma_id_index(after.rows, after.last_clip_id, after.rows.len() - 1);
        }
    }
}

// ---- retention ---------------------------------------------------------

/// Pruning the store leaves a clip exactly where it is pinned, on a pinboard, or
/// not too old with fewer than the cap of its like used after it, and reports how
/// many went.
pub proof fn law_pruned_store_keeps_what_it_may(
    s: &mut Store,
    cfg: &Config,
    now: i64,
    res: std::result::Result<usize, Error>,
    i: int,
)
    requires
        old(s).wf(),
        call_ensures(Store::prune_at, (s, cfg, now), res),
        0 <= i < old(s)@.rows.len(),
    ensures
        final(s)@.rows.contains(old(s)@.rows[i]) <==> (!loose(old(s)@, old(s)@.rows[i])
            || recent_enough(cfg@, now, old(s)@.rows[i]) && rivals(old(s)@, cfg@, now, i)
            < cfg@.max_items),
        res is Ok,
        res->Ok_0 == (old(s)@.rows.len() - final(s)@.rows.len()) as usize,
        final(s)@.boards == old(s)@.boards,
        final(s)@.members == old(s)@.members,
{
    crate::capture_laws::law_prune_takes_no_more_than_it_must(old(s)@, cfg@, now, i);
}

/// Clearing the store leaves the clips that are pinned or on a pinboard, or none.
pub proof fn law_cleared_store_keeps_what_it_must(
    s: &mut Store,
    include_pinned: bool,
    res: std::result::Result<usize, Error>,
    row: RowView,
)
    requires
        old(s).wf(),
        call_ensures(Store::clear, (s, include_pinned), res),
    ensures
        final(s)@.rows.contains(row) <==> !include_pinned && old(s)@.rows.contains(row) && !loose(
            old(s)@,
            row,
        ),
        final(s)@.boards == old(s)@.boards,
        res is Ok,
{
    law_clear_takes_what_is_loose(old(s)@, row);
}

// ---- single clips ------------------------------------------------------

/// Pinning sets the flag of the clip named, where there is one.
pub proof fn law_pinned_store(
    s: &mut Store,
    id: i64,
    pinned: bool,
    res: std::result::Result<Clip, Error>,
    i: int,
)
    requires
        old(s).wf(),
        call_ensures(Store::set_pinned, (s, id, pinned), res),
        0 <= i < old(s)@.rows.len(),
    ensures
        final(s)@.rows.len() == old(s)@.rows.len(),
        old(s)@.rows[i].clip.id == id ==> res is Ok && res->Ok_0@.id == id && res->Ok_0@.pinned
            == pinned && final(s)@.rows[i].clip.pinned == pinned && final(s)@.rows[i].clip.text
            == old(s)@.rows[i].clip.text,
        old(s)@.rows[i].clip.id != id ==> final(s)@.rows[i] == old(s)@.rows[i],
        !has_id(old(s)@.rows, id) ==> res is Err,
{
    if has_id(old(s)@.rows, id) {
        law_pin_sets_the_flag_alone(old(s)@, id, pinned);
        let k = id_index(old(s)@.rows, id);
        assert(old(s)@.rows[k].clip.id == id);
        if old(s)@.rows[i].clip.id == id {
            lemma_id_index(old(s)@.rows, old(s)@.last_clip_id, i);
        }
    } else if old(s)@.rows[i].clip.id == id {
        assert(has_id(old(s)@.rows, id));
    }
}

/// Touching a clip makes it the most recent one and counts a use.
pub proof fn law_touched_store(
    s: &mut Store,
    id: i64,
    now: i64,
    res: std::result::Result<Clip, Error>,
    k: int,
)
    requires
        old(s).wf(),
        call_ensures(Store::touch_at, (s, id, now), res),
        0 <= k < old(s)@.rows.len(),
        old(s)@.rows[k].clip.id == id,
        old(s)@.rows[k].clip.use_count < i64::MAX,
        old(s)@.rows.last().seq < i64::MAX,
    ensures
        res is Ok,
        res->Ok_0@ == final(s)@.rows.last().clip,
        final(s)@.rows.last().clip.id == id,
        final(s)@.rows.last().clip.use_count == old(s)@.rows[k].clip.use_count + 1,
        final(s)@.rows.last().clip.last_used_at == now,
        final(s)@.rows.drop_last() == old(s)@.rows.remove(k),
{
    law_use_moves_one_row(old(s)@, id, now, k);
    assert(has_id(old(s)@.rows, id));
}

/// Deleting takes the clip named, and fails where there is none.
pub proof fn law_deleted_from_store(
    s: &mut Store,
    id: i64,
    res: std::result::Result<(), Error>,
    k: int,
)
    requires
        old(s).wf(),
        call_ensures(Store::delete, (s, id), res),
    ensures
        0 <= k < old(s)@.rows.len() && old(s)@.rows[k].clip.id == id ==> res is Ok
            && final(s)@.rows == old(s)@.rows.remove(k) && final(s)@.boards == old(s)@.boards,
        !has_id(old(s)@.rows, id) ==> res is Err && final(s)@ == old(s)@,
{
    if 0 <= k < old(s)@.rows.len() && old(s)@.rows[k].clip.id == id {
        assert(has_id(old(s)@.rows, id));
        law_delete_takes_one_clip(old(s)@, k, Member { board_id: 0, clip_id: 0, position: 0 });
    }
}

/// Reading a clip gives the clip with that id, and its payload apart from it.
pub proof fn law_clips_are_read_by_id(
    s: &Store,
    id: i64,
    clip: std::result::Result<Clip, Error>,
    bytes: std::result::Result<Option<Vec<u8>>, Error>,
    k: int,
)
    requires
        s.wf(),
        call_ensures(Store::get, (s, id), clip),
        call_ensures(Store::clip_bytes, (s, id), bytes),
    ensures
        0 <= k < s@.rows.len() && s@.rows[k].clip.id == id ==> clip is Ok && clip->Ok_0@
            == s@.rows[k].clip && bytes is Ok && crate::view::opt_bytes(bytes->Ok_0)
            == s@.rows[k].bytes,
        !has_id(s@.rows, id) ==> clip is Err && bytes is Err,
{
    if 0 <= k < s@.rows.len() && s@.rows[k].clip.id == id {
        lemma_id_index(s@.rows, s@.last_clip_id, k);
    }
}

// ---- lists -------------------------------------------------------------

/// A list of clips of one kind holds clips of that kind only, and the list of
/// pinned ones only pinned ones, each of them stored.
pub proof fn law_lists_keep_to_their_kind(
    s: &Store,
    kind: ClipKind,
    limit: usize,
    of_kind: std::result::Result<Vec<Clip>, Error>,
    pinned: std::result::Result<Vec<Clip>, Error>,
    i: int,
)
    requires
        call_ensures(Store::by_kind, (s, kind, limit), of_kind),
        call_ensures(Store::pinned, (s, limit), pinned),
    ensures
        of_kind is Ok,
        pinned is Ok,
        of_kind->Ok_0@.len() <= limit,
        pinned->Ok_0@.len() <= limit,
        0 <= i < of_kind->Ok_0@.len() ==> of_kind->Ok_0@[i]@.kind == kind && exists|k: int|
            0 <= k < s@.rows.len() && (#[trigger] s@.rows[k]).clip == of_kind->Ok_0@[i]@,
        0 <= i < pinned->Ok_0@.len() ==> pinned->Ok_0@[i]@.pinned && exists|k: int|
            0 <= k < s@.rows.len() && (#[trigger] s@.rows[k]).clip == pinned->Ok_0@[i]@,
{
    let rows = s@.rows;
    let by = |r: RowView| r.clip.kind == kind;
    let up = |r: RowView| r.clip.pinned;
    let a = clip_views(of_kind->Ok_0@);
    let b = clip_views(pinned->Ok_0@);
    assert(a.len() == of_kind->Ok_0@.len() && b.len() == pinned->Ok_0@.len());
    if 0 <= i < a.len() {
        let row = listing(rows, by)[i];
        assert(listing(rows, by).contains(row));
        law_list_holds_what_was_asked_for(rows, by, row);
        let k = rows.index_of(row);
        assert(rows[k].clip == a[i]);
        assert(a[i] == of_kind->Ok_0@[i]@);
    }
    if 0 <= i < b.len() {
        let ups = rows.filter(up);
        let row = ups[ups.len() - 1 - i];
        crate::seqs::lemma_source(rows, up, ups.len() - 1 - i);
        let k = crate::seqs::source(rows, up, ups.len() - 1 - i);
        assert(rows[k].clip == b[i]);
        assert(b[i] == pinned->Ok_0@[i]@);
    }
}

/// The recent clips are the stored ones, as many as asked for where there are that
/// many, and pages of them continue one another.
pub proof fn law_recent_clips_come_in_pages(
    s: &Store,
    limit: usize,
    offset: usize,
    page: std::result::Result<Vec<Clip>, Error>,
    all: std::result::Result<Vec<Clip>, Error>,
    i: int,
)
    requires
        call_ensures(Store::recent, (s, limit, offset), page),
        call_ensures(Store::recent, (s, usize::MAX, 0), all),
        s@.rows.len() <= usize::MAX,
    ensures
        page is Ok,
        all is Ok,
        all->Ok_0@.len() == s@.rows.len(),
        page->Ok_0@.len() <= limit,
        offset + limit <= s@.rows.len() ==> page->Ok_0@.len() == limit,
        0 <= i < page->Ok_0@.len() ==> page->Ok_0@[i]@ == all->Ok_0@[offset + i]@,
{
    let shown = listing(s@.rows, |r: RowView| true);
    crate::laws::law_list_is_complete(s@.rows);
    law_page_is_a_window(shown, limit, offset, i);
    law_page_is_a_window(shown, usize::MAX, 0, offset + i);
    let a = clip_views(page->Ok_0@);
    let b = clip_views(all->Ok_0@);
    assert(a.len() == page->Ok_0@.len() && b.len() == all->Ok_0@.len());
    if 0 <= i < a.len() {
        assert(a[i] == page->Ok_0@[i]@);
        assert(b[offset + i] == all->Ok_0@[offset + i]@);
    }
}

// ---- searching ---------------------------------------------------------

/// The expression made of some words ends in a star behind the last word, has no
/// other star, and a word more in front is required as well.
pub proof fn law_expression_asks_for_every_word(
    words: &Vec<Vec<char>>,
    fewer: &Vec<Vec<char>>,
    expr: String,
    rest: String,
)
    requires
        call_ensures(fts_expression, (words,), expr),
        call_ensures(fts_expression, (fewer,), rest),
        fewer@.len() > 0,
        words@.len() == fewer@.len() + 1,
        forall|i: int| 0 <= i < fewer@.len() ==> (#[trigger] words@[i + 1])@ == fewer@[i]@,
        forall|i: int|
            0 <= i < words@.len() ==> !(#[trigger] words@[i])@.contains('"') && !words@[i]@.contains(
                '*',
            ),
    ensures
        expr@ == seq!['"'] + words@[0]@ + "\" AND "@ + rest@,
        expr@.last() == '*',
        !expr@.drop_last().contains('*'),
{
    let all = chars_view(words@);
    let tail = chars_view(fewer@);
    assert forall|i: int| 0 <= i < tail.len() implies tail[i] == all[i + 1] by {
        assert(words@[i + 1]@ == fewer@[i]@);
    }
    assert(all =~= seq![words@[0]@] + tail);
    assert(!words@[0]@.contains('"'));
    crate::search_laws::law_every_word_is_required(words@[0]@, tail);
    assert forall|i: int| 0 <= i < all.len() implies !(#[trigger] all[i]).contains('"')
        && !all[i].contains('*') by {
        assert(all[i] == words@[i]@);
    }
    crate::search_laws::law_last_word_is_a_prefix(all);
    let last = seq!['"'] + all.last() + seq!['"', '*'];
    assert(expr@.skip(expr@.len() - last.len()).last() == expr@.last());
}

/// The words of a query with something that is no word in it are those before it
/// and those behind it.
pub proof fn law_queries_are_split_into_words(
    whole: &str,
    before: &str,
    behind: &str,
    c: char,
    all: Vec<Vec<char>>,
    first: Vec<Vec<char>>,
    second: Vec<Vec<char>>,
)
    requires
        call_ensures(tokenize, (whole,), all),
        call_ensures(tokenize, (before,), first),
        call_ensures(tokenize, (behind,), second),
        whole@ == before@.push(c) + behind@,
        !crate::search_laws::in_word(c),
    ensures
        chars_view(all@) == chars_view(first@) + chars_view(second@),
{
    crate::search_laws::law_query_comes_apart(before@, c, behind@);
}

/// A search with full-text search at work gives stored clips only, each once, each
/// with a text that satisfies the expression for the query's words, and all of them
/// where there is room.
pub proof fn law_searched_store(
    s: &Store,
    query: &str,
    limit: usize,
    res: std::result::Result<Vec<Clip>, Error>,
)
    requires
        s.wf(),
        call_ensures(Store::search, (s, query, limit), res),
        crate::store::index_answers(*s, query@),
        query_tokens(query@).len() > 0,
    ensures
        res is Ok,
        res->Ok_0@.len() <= limit,
        forall|i: int|
            0 <= i < res->Ok_0@.len() ==> exists|k: int|
                0 <= k < s@.rows.len() && (#[trigger] s@.rows[k]).clip == (
                #[trigger] res->Ok_0@[i])@ && satisfies(
                    s@.rows[k],
                    match_expression(query_tokens(query@)),
                ),
        res->Ok_0@.len() < limit ==> forall|k: int|
            0 <= k < s@.rows.len() && satisfies(
                #[trigger] s@.rows[k],
                match_expression(query_tokens(query@)),
            ) ==> exists|i: int|
                0 <= i < res->Ok_0@.len() && (#[trigger] res->Ok_0@[i])@ == s@.rows[k].clip,
{
    let expr = match_expression(query_tokens(query@));
    let found = clip_views(res->Ok_0@);
    crate::search_laws::law_index_search_is_exact(s@, expr, limit, found);
    assert(found.len() == res->Ok_0@.len());
    assert forall|i: int| 0 <= i < res->Ok_0@.len() implies exists|k: int|
        0 <= k < s@.rows.len() && (#[trigger] s@.rows[k]).clip == (#[trigger] res->Ok_0@[i])@
            && satisfies(s@.rows[k], expr) by {
        assert(found[i] == res->Ok_0@[i]@);
    }
    if res->Ok_0@.len() < limit {
        assert forall|k: int| 0 <= k < s@.rows.len() && satisfies(
            #[trigger] s@.rows[k],
            expr,
        ) implies exists|i: int|
            0 <= i < res->Ok_0@.len() && (#[trigger] res->Ok_0@[i])@ == s@.rows[k].clip by {
            let i = found.index_of(s@.rows[k].clip);
            assert(found[i] == res->Ok_0@[i]@);
        }
    }
}

// ---- pinboards and counts ----------------------------------------------

/// A clip put on a pinboard is on it, and one taken off is not; either needs a
/// pinboard of that name, and putting one on needs the clip.
pub proof fn law_boards_of_the_store(
    s: &mut Store,
    t: &mut Store,
    name: &str,
    id: i64,
    added: std::result::Result<(), Error>,
    removed: std::result::Result<(), Error>,
)
    requires
        old(s).wf(),
        old(t).wf(),
        call_ensures(Store::add_to_pinboard, (s, name, id), added),
        call_ensures(Store::remove_from_pinboard, (t, name, id), removed),
    ensures
        added is Ok ==> has_member(final(s)@.members, old(s)@.board(name@).id, id)
            && final(s)@.rows == old(s)@.rows,
        added is Err ==> final(s)@ == old(s)@,
        !has_name(old(s)@.boards, name@) || !has_id(old(s)@.rows, id) ==> added is Err,
        removed is Ok ==> !has_member(final(t)@.members, old(t)@.board(name@).id, id)
            && final(t)@.rows == old(t)@.rows,
        removed is Ok <==> has_name(old(t)@.boards, name@),
{
    let v = old(s)@;
    let board_id = v.board(name@).id;
    if added is Ok && !has_member(v.members, board_id, id) {
        let m = final(s)@.members[v.members.len() as int];
        assert(m.board_id == board_id && m.clip_id == id);
    }
    if removed is Ok {
        let b = old(t)@.board(name@).id;
        let after = final(t)@.members;
        if has_member(after, b, id) {
            let m = choose|m: int|
                0 <= m < after.len() && (#[trigger] after[m]).board_id == b && after[m].clip_id
                    == id;
            crate::history_laws::law_removed_member_leaves_the_others(old(t)@, b, id, after[m]);
            assert(after.contains(after[m]));
        }
    }
}

/// Deleting a pinboard keeps its clips; creating one makes it findable.
pub proof fn law_boards_come_and_go(
    s: &mut Store,
    t: &mut Store,
    name: &str,
    now: i64,
    created: std::result::Result<Pinboard, Error>,
    deleted: std::result::Result<(), Error>,
)
    requires
        old(s).wf(),
        old(t).wf(),
        call_ensures(Store::create_pinboard_at, (s, name, now), created),
        call_ensures(Store::delete_pinboard, (t, name), deleted),
    ensures
        created is Ok ==> has_name(final(s)@.boards, name@) && created->Ok_0@.name == name@,
        final(s)@.rows == old(s)@.rows,
        final(s)@.members == old(s)@.members,
        final(t)@.rows == old(t)@.rows,
        deleted is Ok <==> has_name(old(t)@.boards, name@),
        !has_name(final(t)@.boards, name@),
{
    let v = old(s)@;
    if has_name(v.boards, name@) {
        let k = name_index(v.boards, name@);
        assert(v.boards[k].name == name@);
    } else if created is Ok {
        assert(final(s)@.boards[v.boards.len() as int].name == name@);
    }
    let w = old(t)@;
    if has_name(w.boards, name@) {
        let k = name_index(w.boards, name@);
        assert(w.boards[k].name == name@);
        let m = Member { board_id: 0, clip_id: 0, position: 0 };
        crate::history_laws::law_deleted_board_keeps_its_clips(w, k, m);
        let after = final(t)@.boards;
        if has_name(after, name@) {
            let j = name_index(after, name@);
            assert(after[j].name == name@);
            if j < k {
                assert(w.boards[j].name != w.boards[k].name);
            } else {
                assert(after[j] == w.boards[j + 1]);
                assert(w.boards[k].name != w.boards[j + 1].name);
            }
        }
    }
}

/// The counts of the store are those of what it holds.
pub proof fn law_store_is_counted(s: &Store, res: std::result::Result<Stats, Error>)
    requires
        call_ensures(Store::stats, (s,), res),
        res is Ok,
        s@.rows.len() <= i64::MAX,
        s@.boards.len() <= i64::MAX,
    ensures
        res->Ok_0.total_clips == s@.rows.len(),
        res->Ok_0.pinned_clips == s@.rows.filter(|r: RowView| r.clip.pinned).len(),
        res->Ok_0.pinboards == s@.boards.len(),
        res->Ok_0.full_text_search == s.full_text(),
        s@.rows.len() == 0 ==> res->Ok_0.oldest_created_at is None,
        s@.rows.len() > 0 ==> res->Ok_0.oldest_created_at is Some,
        forall|i: int|
            0 <= i < s@.rows.len() ==> res->Ok_0.oldest_created_at->0 <= (
            #[trigger] s@.rows[i]).clip.created_at,
{
    crate::history_laws::law_oldest_is_least(s@.rows);
    s@.rows.lemma_filter_len(|r: RowView| r.clip.pinned);
}

/// A scan finds the clips whose text contains the query, ASCII case aside, and no
/// others, where neither holds a character that SQLite cannot tell apart.
pub proof fn law_scanned_store(
    s: &Store,
    query: &str,
    limit: usize,
    res: std::result::Result<Vec<Clip>, Error>,
    i: int,
)
    requires
        s.wf(),
        call_ensures(Store::search_like, (s, query, limit), res),
        res is Ok,
        crate::search::legible(query@),
        crate::store::texts_legible(s@.rows),
        0 <= i < res->Ok_0@.len(),
    ensures
        res->Ok_0@.len() <= limit,
        res->Ok_0@[i]@.text is Some,
        exists|before: Seq<char>, behind: Seq<char>|
            #[trigger] (before + crate::text::lowered(query@) + behind) == crate::text::lowered(
                res->Ok_0@[i]@.text->0,
            ),
{
    let rows = s@.rows;
    let keep = crate::store::rows_containing(query@);
    let shown = clip_views(res->Ok_0@);
    assert(shown.len() == res->Ok_0@.len());
    assert(shown == crate::model::clips_of_rows(
        crate::model::page(listing(rows, keep), limit, 0),
    ));
    law_page_is_a_window(listing(rows, keep), limit, 0, i);
    assert(shown[i] == res->Ok_0@[i]@);
    let row = listing(rows, keep)[i];
    assert(listing(rows, keep).contains(row));
    law_list_holds_what_was_asked_for(rows, keep, row);
    crate::text_laws::law_part_occurs(
        crate::text::lowered(row.clip.text->0),
        crate::text::lowered(query@),
    );
}

/// And it finds every one of them where there is room.
pub proof fn law_scan_misses_nothing(
    s: &Store,
    query: &str,
    limit: usize,
    res: std::result::Result<Vec<Clip>, Error>,
    k: int,
    before: Seq<char>,
    behind: Seq<char>,
)
    requires
        s.wf(),
        call_ensures(Store::search_like, (s, query, limit), res),
        res is Ok,
        crate::search::legible(query@),
        crate::store::texts_legible(s@.rows),
        res->Ok_0@.len() < limit,
        0 <= k < s@.rows.len(),
        s@.rows[k].clip.text == Some(before + query@ + behind),
    ensures
        exists|i: int|
            0 <= i < res->Ok_0@.len() && (#[trigger] res->Ok_0@[i])@ == s@.rows[k].clip,
{
    let rows = s@.rows;
    let keep = crate::store::rows_containing(query@);
    let all = listing(rows, keep);
    let text = before + query@ + behind;
    assert(crate::text::lowered(before) + crate::text::lowered(query@) + crate::text::lowered(
        behind,
    ) =~= crate::text::lowered(text));
    crate::text_laws::law_part_occurs(crate::text::lowered(text), crate::text::lowered(query@));
    assert(keep(rows[k]));
    assert(rows.contains(rows[k]));
    law_list_holds_what_was_asked_for(rows, keep, rows[k]);
    let shown = clip_views(res->Ok_0@);
    assert(shown.len() == res->Ok_0@.len());
    let i = all.index_of(rows[k]);
    assert(all[i] == rows[k]);
    assert(shown.len() == all.len());
    assert(shown[i] == rows[k].clip);
    assert(shown[i] == res->Ok_0@[i]@);
}

} // verus!
