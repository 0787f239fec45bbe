//! What each operation does to the history, and what it leaves alone.

use vstd::prelude::*;
use crate::clip::ClipView;
use crate::model::{
    board_index, earliest, has_board, has_id, has_name, id_index, lemma_board_index,
    lemma_id_index, lemma_name_index, listing, next_board_position, next_member_position, on_board, page, total_size, BoardView, ChangeView, Member, RowView,
    StoreView,
};
use crate::seqs::{lemma_filter_has, lemma_source, lemma_source_ascends, source};
use crate::store::{pinboard_of, stats_of};

verus! {

// ---- pinning, using, deleting ------------------------------------------

/// Pinning or unpinning a clip sets its flag and changes nothing else: no other
/// clip, no place in the order, no pinboard.
pub proof fn law_pin_sets_the_flag_alone(v: StoreView, id: i64, pinned: bool)
    requires
        v.wf(),
        has_id(v.rows, id),
    ensures
        ({
            let after = v.apply(ChangeView::Pin { id, pinned });
            &&& after.rows.len() == v.rows.len()
            &&& after.boards == v.boards
            &&& after.members == v.members
            &&& after.last_clip_id == v.last_clip_id
            &&& forall|i: int|
                0 <= i < v.rows.len() ==> {
                    let was = v.rows[i];
                    let is = #[trigger] after.rows[i];
                    if was.clip.id == id {
                        is == (RowView { clip: ClipView { pinned, ..was.clip }, ..was })
                    } else {
                        is == was
                    }
                }
        }),
{
    let k = id_index(v.rows, id);
    assert(v.rows[k].clip.id == id);
    assert forall|i: int| 0 <= i < v.rows.len() && v.rows[i].clip.id == id implies i == k by {
        lemma_id_index(v.rows, v.last_clip_id, i);
    }
}

/// Using a clip moves its row to the end of the order of use and leaves every
/// other row as it is and in order.
pub proof fn law_use_moves_one_row(v: StoreView, id: i64, now: i64, k: int)
    requires
        v.wf(),
        0 <= k < v.rows.len(),
        v.rows[k].clip.id == id,
        v.rows[k].clip.use_count < i64::MAX,
        v.rows.last().seq < i64::MAX,
    ensures
        v.can_use(id),
        ({
            let after = v.apply(v.use_of(id, now));
            &&& after.rows.len() == v.rows.len()
            &&& after.rows.drop_last() == v.rows.remove(k)
            &&& after.rows.last().clip.id == id
            &&& after.rows.last().clip.last_used_at == now
            &&& after.rows.last().clip.use_count == v.rows[k].clip.use_count + 1
            &&& after.rows.last().clip.text == v.rows[k].clip.text
            &&& after.rows.last().clip.created_at == v.rows[k].clip.created_at
            &&& after.rows.last().clip.pinned == v.rows[k].clip.pinned
            &&& after.rows.last().bytes == v.rows[k].bytes
            &&& after.rows.last().seq == v.rows.last().seq + 1
            &&& after.boards == v.boards
            &&& after.members == v.members
        }),
{
    lemma_id_index(v.rows, v.last_clip_id, k);
    let after = v.apply(v.use_of(id, now));
    assert(after.rows.drop_last() =~= v.rows.remove(k));
}

/// Deleting a clip takes its row and its places on pinboards, and nothing else:
/// the other rows stay as they are and in order, and so do all other memberships
/// and every pinboard.
pub proof fn law_delete_takes_one_clip(v: StoreView, k: int, m: Member)
    requires
        v.wf(),
        0 <= k < v.rows.len(),
    ensures
        ({
            let id = v.rows[k].clip.id;
            let after = v.apply(ChangeView::Drop(id));
            &&& after.rows == v.rows.remove(k)
            &&& after.members.contains(m) <==> v.members.contains(m) && m.clip_id != id
            &&& after.boards == v.boards
            &&& after.last_clip_id == v.last_clip_id
            &&& after.last_board_id == v.last_board_id
        }),
{
    lemma_id_index(v.rows, v.last_clip_id, k);
    let id = v.rows[k].clip.id;
    lemma_filtered(v.members, |m: Member| m.clip_id != id, m);
}

/// Clearing leaves the clips that are pinned or on a pinboard, in order, and every
/// pinboard; clearing everything leaves the pinboards, empty.
pub proof fn law_clear_takes_what_is_loose(v: StoreView, row: RowView)
    ensures
        v.cleared(false).rows.contains(row) <==> v.rows.contains(row) && !crate::capture_laws::loose(
            v,
            row,
        ),
        v.cleared(false).members == v.members,
        v.cleared(false).boards == v.boards,
        v.cleared(false).last_clip_id == v.last_clip_id,
        v.cleared(true).rows.len() == 0,
        v.cleared(true).members.len() == 0,
        v.cleared(true).boards == v.boards,
        v.cleared(true).last_clip_id == v.last_clip_id,
{
    crate::laws::law_clear_leaves_protected(v, row);
    crate::capture_laws::law_pins_and_boards_protect(v, row);
}

/// What clearing leaves stays in order.
pub proof fn law_clear_keeps_the_order(v: StoreView, i: int, j: int)
    requires
        v.wf(),
        0 <= i < j < v.cleared(false).rows.len(),
    ensures
        v.cleared(false).rows[i].seq < v.cleared(false).rows[j].seq,
{
    let p = |r: RowView| crate::model::is_protected(v.members, r);
    lemma_source(v.rows, p, i);
    lemma_source(v.rows, p, j);
    lemma_source_ascends(v.rows, p, i, j);
    assert(v.rows[source(v.rows, p, i)].seq < v.rows[source(v.rows, p, j)].seq);
}

proof fn lemma_filtered<A>(s: Seq<A>, p: spec_fn(A) -> bool, a: A)
    ensures
        s.filter(p).contains(a) <==> s.contains(a) && p(a),
{
    if s.contains(a) && p(a) {
        let i = lemma_filter_has(s, p, s.index_of(a));
        assert(s.filter(p)[i] == a);
    }
    if s.filter(p).contains(a) {
        let i = s.filter(p).index_of(a);
        lemma_source(s, p, i);
        assert(s[source(s, p, i)] == a);
    }
}

// ---- lists -------------------------------------------------------------

/// A list holds exactly the rows asked for.
pub proof fn law_list_holds_what_was_asked_for(
    rows: Seq<RowView>,
    keep: spec_fn(RowView) -> bool,
    row: RowView,
)
    ensures
        listing(rows, keep).contains(row) <==> rows.contains(row) && keep(row),
{
    let up = |r: RowView| keep(r) && r.clip.pinned;
    let down = |r: RowView| keep(r) && !r.clip.pinned;
    lemma_filtered(rows, up, row);
    lemma_filtered(rows, down, row);
    let ups = rows.filter(up);
    let downs = rows.filter(down);
    let all = listing(rows, keep);
    assert(all == ups.reverse() + downs.reverse());
    if ups.contains(row) {
        let i = ups.index_of(row);
        assert(all[ups.len() - 1 - i] == row);
    }
    if downs.contains(row) {
        let i = downs.index_of(row);
        assert(all[ups.len() + (downs.len() - 1 - i)] == row);
    }
    if all.contains(row) {
        let i = all.index_of(row);
        if i < ups.len() {
            assert(ups[ups.len() - 1 - i] == row);
            assert(ups.contains(row));
        } else {
            assert(downs[downs.len() - 1 - (i - ups.len())] == row);
            assert(downs.contains(row));
        }
    }
}

/// A page is a window on a list: it begins where asked, holds as many as asked for
/// as long as there are that many, and shows each in its place.
pub proof fn law_page_is_a_window<A>(all: Seq<A>, limit: usize, offset: usize, i: int)
    ensures
        offset >= all.len() ==> page(all, limit, offset).len() == 0,
        offset + limit <= all.len() ==> page(all, limit, offset).len() == limit,
        offset < all.len() < offset + limit ==> page(all, limit, offset).len() == all.len()
            - offset,
        0 <= i < page(all, limit, offset).len() ==> page(all, limit, offset)[i] == all[offset + i],
{
}

// ---- pinboards ---------------------------------------------------------

/// A new pinboard is empty, comes last and has an id that none ever had; the others
/// stay as they are.
pub proof fn law_new_board_comes_last(v: StoreView, name: Seq<char>, now: i64)
    requires
        v.wf(),
        v.last_board_id < i64::MAX,
        v.boards.len() > 0 ==> v.boards.last().position < i64::MAX,
    ensures
        next_board_position(v.boards) <= i64::MAX,
        ({
            let board = v.new_board(name, now);
            let after = v.apply(ChangeView::AddBoard(board));
            &&& after.boards.len() == v.boards.len() + 1
            &&& after.boards.drop_last() == v.boards
            &&& after.boards.last() == board
            &&& board.name == name
            &&& board.created_at == now
            &&& board.id > v.last_board_id
            &&& after.last_board_id == board.id
            &&& after.rows == v.rows
            &&& after.members == v.members
            &&& forall|i: int|
                0 <= i < v.boards.len() ==> (#[trigger] v.boards[i]).position < board.position
                    && v.boards[i].id != board.id
            &&& after.board_rows(board.id).len() == 0
        }),
{
    let board = v.new_board(name, now);
    let after = v.apply(ChangeView::AddBoard(board));
    assert(after.boards.drop_last() =~= v.boards);
    assert forall|i: int| 0 <= i < v.boards.len() implies (#[trigger] v.boards[i]).position
        < board.position && v.boards[i].id != board.id by {
        assert(v.boards[i].id <= v.last_board_id);
        if i < v.boards.len() - 1 {
            assert(v.boards[i].position <= v.boards[v.boards.len() - 1].position);
        }
    }
    let mine = |m: Member| m.board_id == board.id;
    assert forall|i: int| 0 <= i < v.members.len() implies !mine(#[trigger] v.members[i]) by {
        assert(has_board(v.boards, v.members[i].board_id));
        let k = board_index(v.boards, v.members[i].board_id);
        assert(v.boards[k].id <= v.last_board_id);
    }
    crate::seqs::lemma_filter_none(v.members, mine);
}

/// Deleting a pinboard keeps every clip and every other pinboard with what is on
/// it.
pub proof fn law_deleted_board_keeps_its_clips(v: StoreView, k: int, m: Member)
    requires
        v.wf(),
        0 <= k < v.boards.len(),
    ensures
        ({
            let id = v.boards[k].id;
            let after = v.apply(ChangeView::DropBoard(id));
            &&& after.rows == v.rows
            &&& after.boards == v.boards.remove(k)
            &&& after.members.contains(m) <==> v.members.contains(m) && m.board_id != id
            &&& after.last_clip_id == v.last_clip_id
            &&& after.last_board_id == v.last_board_id
        }),
{
    lemma_board_index(v.boards, v.last_board_id, k);
    let id = v.boards[k].id;
    lemma_filtered(v.members, |m: Member| m.board_id != id, m);
}

/// A clip put on a pinboard comes last there, behind all that are on it already;
/// every other pinboard shows what it showed.
pub proof fn law_new_member_comes_last(v: StoreView, board_id: i64, clip_id: i64, other: i64)
    requires
        v.wf(),
        next_member_position(v.members, board_id) <= i64::MAX,
        other != board_id,
    ensures
        ({
            let position = next_member_position(v.members, board_id) as i64;
            let after = v.apply(ChangeView::AddMember(Member { board_id, clip_id, position }));
            &&& after.board_rows(board_id) == v.board_rows(board_id).push(v.row(clip_id))
            &&& after.board_rows(other) == v.board_rows(other)
            &&& after.rows == v.rows
            &&& after.boards == v.boards
            &&& forall|i: int|
                0 <= i < v.members.len() && (#[trigger] v.members[i]).board_id == board_id
                    ==> v.members[i].position < position
        }),
{
    let position = next_member_position(v.members, board_id) as i64;
    let member = Member { board_id, clip_id, position };
    let after = v.apply(ChangeView::AddMember(member));
    let mine = |m: Member| m.board_id == board_id;
    let theirs = |m: Member| m.board_id == other;
    reveal(Seq::filter);
    assert(after.members.drop_last() =~= v.members);
    assert(after.members.last() == member);
    assert(on_board(after.members, board_id) == on_board(v.members, board_id).push(member));
    assert(on_board(after.members, other) == on_board(v.members, other));
    assert(after.board_rows(board_id) =~= v.board_rows(board_id).push(v.row(clip_id)));
    assert(after.board_rows(other) =~= v.board_rows(other));
    assert forall|i: int| 0 <= i < v.members.len() && (#[trigger] v.members[i]).board_id
        == board_id implies v.members[i].position < position by {
        let all = on_board(v.members, board_id);
        let k = lemma_filter_has(v.members, mine, i);
        assert(all[k] == v.members[i]);
        if k < all.len() - 1 {
            lemma_source(v.members, mine, k);
            lemma_source(v.members, mine, all.len() - 1);
            lemma_source_ascends(v.members, mine, k, all.len() - 1);
            let a = source(v.members, mine, k);
            let b = source(v.members, mine, all.len() - 1);
            assert(v.members[a].board_id == v.members[b].board_id);
            assert(v.members[a].position <= v.members[b].position);
        }
    }
}

/// Taking a clip off a pinboard takes that one place and leaves every other, on
/// this pinboard and elsewhere; the clip stays.
pub proof fn law_removed_member_leaves_the_others(
    v: StoreView,
    board_id: i64,
    clip_id: i64,
    m: Member,
)
    ensures
        ({
            let after = v.apply(ChangeView::DropMember { board_id, clip_id });
            &&& after.rows == v.rows
            &&& after.boards == v.boards
            &&& after.members.contains(m) <==> v.members.contains(m) && (m.board_id != board_id
                || m.clip_id != clip_id)
        }),
{
    lemma_filtered(
        v.members,
        |m: Member| !(m.board_id == board_id && m.clip_id == clip_id),
        m,
    );
}

/// A pinboard shows the clips that were put on it, each as it is in the history, in
/// the order of their places, and counts them.
pub proof fn law_board_shows_its_clips(v: StoreView, board: BoardView, clip_id: i64)
    requires
        v.wf(),
        on_board(v.members, board.id).len() <= i64::MAX,
    ensures
        (exists|i: int|
            0 <= i < v.board_rows(board.id).len() && (#[trigger] v.board_rows(
                board.id,
            )[i]).clip.id == clip_id) <==> crate::model::has_member(v.members, board.id, clip_id),
        pinboard_of(v, board).clip_count == v.board_rows(board.id).len(),
        pinboard_of(v, board).id == board.id,
        pinboard_of(v, board).name == board.name,
        pinboard_of(v, board).position == board.position,
        forall|i: int|
            0 <= i < v.board_rows(board.id).len() ==> v.rows.contains(
                #[trigger] v.board_rows(board.id)[i],
            ),
{
    let mine = |m: Member| m.board_id == board.id;
    let all = on_board(v.members, board.id);
    let shown = v.board_rows(board.id);
    assert forall|i: int| 0 <= i < shown.len() implies v.rows.contains(#[trigger] shown[i])
        && shown[i].clip.id == all[i].clip_id by {
        lemma_source(v.members, mine, i);
        let s = source(v.members, mine, i);
        assert(has_id(v.rows, v.members[s].clip_id));
        let k = id_index(v.rows, all[i].clip_id);
        assert(v.rows[k].clip.id == all[i].clip_id);
        assert(shown[i] == v.rows[k]);
    }
    if crate::model::has_member(v.members, board.id, clip_id) {
        let m = choose|m: int|
            0 <= m < v.members.len() && (#[trigger] v.members[m]).board_id == board.id
                && v.members[m].clip_id == clip_id;
        let i = lemma_filter_has(v.members, mine, m);
        assert(shown[i].clip.id == clip_id);
    }
    if exists|i: int| 0 <= i < shown.len() && (#[trigger] shown[i]).clip.id == clip_id {
        let i = choose|i: int| 0 <= i < shown.len() && (#[trigger] shown[i]).clip.id == clip_id;
        lemma_source(v.members, mine, i);
        let s = source(v.members, mine, i);
        assert(v.members[s].clip_id == clip_id && v.members[s].board_id == board.id);
    }
}

/// A pinboard is found by its exact name.
pub proof fn law_board_is_found_by_name(v: StoreView, k: int)
    requires
        v.wf(),
        0 <= k < v.boards.len(),
    ensures
        has_name(v.boards, v.boards[k].name),
        v.board(v.boards[k].name) == v.boards[k],
{
    lemma_name_index(v.boards, v.last_board_id, k);
}

// ---- statistics --------------------------------------------------------

/// The counts follow the history: one more clip is one more in the total, in the
/// pinned ones where it is pinned, and its size in the bytes.
pub proof fn law_counts_follow_the_history(v: StoreView, row: RowView, full_text: bool)
    requires
        v.rows.len() < i64::MAX,
        i64::MIN <= total_size(v.rows) <= i64::MAX,
        i64::MIN <= total_size(v.rows) + row.clip.byte_len <= i64::MAX,
        v.boards.len() <= i64::MAX,
    ensures
        ({
            let more = StoreView { rows: v.rows.push(row), ..v };
            let was = stats_of(v, full_text);
            let is = stats_of(more, full_text);
            &&& is.total_clips == was.total_clips + 1
            &&& is.pinned_clips == was.pinned_clips + (if row.clip.pinned {
                1int
            } else {
                0
            })
            &&& is.total_bytes == was.total_bytes + row.clip.byte_len
            &&& is.pinboards == was.pinboards
            &&& was.pinboards == v.boards.len()
            &&& was.full_text_search == full_text
        }),
        stats_of(StoreView { rows: Seq::empty(), ..v }, full_text).total_clips == 0,
        stats_of(StoreView { rows: Seq::empty(), ..v }, full_text).pinned_clips == 0,
        stats_of(StoreView { rows: Seq::empty(), ..v }, full_text).total_bytes == 0,
{
    let up = |r: RowView| r.clip.pinned;
    let more = v.rows.push(row);
    reveal(Seq::filter);
    assert(more.drop_last() =~= v.rows);
    v.rows.lemma_filter_len(up);
    assert(Seq::<RowView>::empty().filter(up) =~= Seq::<RowView>::empty());
}

/// The oldest time reported is that of some clip, and no clip is older; there is
/// none exactly where there is no clip.
pub proof fn law_oldest_is_least(rows: Seq<RowView>)
    ensures
        earliest(rows) is None <==> rows.len() == 0,
        earliest(rows) matches Some(t) ==> (exists|i: int|
            0 <= i < rows.len() && (#[trigger] rows[i]).clip.created_at == t) && (forall|i: int|
            0 <= i < rows.len() ==> (#[trigger] rows[i]).clip.created_at >= t),
    decreases rows.len(),
{
    if rows.len() > 0 {
        let head = rows.drop_last();
        law_oldest_is_least(head);
        let t = earliest(rows)->0;
        let last = rows.len() - 1;
        if t == rows[last].clip.created_at {
            assert(rows[last].clip.created_at == t);
        } else {
            let i = choose|i: int| 0 <= i < head.len() && (#[trigger] head[i]).clip.created_at == t;
            assert(rows[i].clip.created_at == t);
        }
        assert forall|i: int| 0 <= i < rows.len() implies (#[trigger] rows[i]).clip.created_at
            >= t by {
            if i < last {
                assert(head[i] == rows[i]);
            }
        }
    }
}

/// A fresh history holds nothing, and its first clip gets the first id.
pub proof fn law_fresh_history_is_empty()
    ensures
        StoreView::empty().rows.len() == 0,
        StoreView::empty().boards.len() == 0,
        StoreView::empty().members.len() == 0,
        StoreView::empty().last_clip_id == 0,
        StoreView::empty().last_board_id == 0,
        StoreView::empty().wf(),
{
}

} // verus!
