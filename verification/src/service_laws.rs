//! What a command does, from what the user typed to what the history holds then.

use vstd::prelude::*;
use crate::capture_laws::{content_size, has_room, loose, may_be_stored};
use crate::cli::{requests, BoardCommand, Command};
use crate::clip::{ClipKind, ClipView, NewClip, NewClipView};
use crate::clipboard;
use crate::config::ConfigView;
use crate::history_laws::{
    law_delete_takes_one_clip, law_list_holds_what_was_asked_for, law_page_is_a_window,
    law_pin_sets_the_flag_alone, law_use_moves_one_row,
};
use crate::model::{
    has_id, has_member, has_name, id_index, lemma_id_index, listing, name_index, Member, RowView,
    StoreView,
};
use crate::protocol::{Request, ResponseView};
use crate::service::{
    began, captured, copied, granted, ingested, Dispatcher, JobView, StepView,
};

verus! {

/// The page size granted is the one asked for, within one and a thousand, and the
/// nearer of these outside.
pub proof fn law_page_sizes_are_clamped(limit: usize)
    ensures
        1 <= limit <= 1000 ==> granted(limit) == limit,
        limit == 0 ==> granted(limit) == 1,
        limit > 1000 ==> granted(limit) == 1000,
{
}

// ---- single clips ------------------------------------------------------

/// `pin` pins the clip and `unpin` unpins it; either shows the clip as it is then,
/// and leaves every other clip alone.
pub proof fn law_pin_and_unpin(
    desk: Dispatcher,
    id: i64,
    pinned: bool,
    req: Request,
    now: i64,
    uptime: u64,
    after: StoreView,
    step: StepView,
    other: i64,
)
    requires
        desk.store@.wf(),
        has_id(desk.store@.rows, id),
        requests(
            if pinned {
                Command::Pin { id }
            } else {
                Command::Unpin { id }
            },
            req,
        ),
        began(desk, req, now, uptime, after, step),
    ensures
        has_id(after.rows, id),
        after.row(id).clip.pinned == pinned,
        after.row(id).clip == (ClipView { pinned, ..desk.store@.row(id).clip }),
        after.row(id).bytes == desk.store@.row(id).bytes,
        step matches StepView::Reply(ResponseView::Clip { clip }) && clip == after.row(id).clip,
        other != id && has_id(desk.store@.rows, other) ==> has_id(after.rows, other) && after.row(
            other,
        ) == desk.store@.row(other),
{
    let v = desk.store@;
    law_pin_sets_the_flag_alone(v, id, pinned);
    crate::model::lemma_pin_wf(v, id, pinned);
    let k = id_index(v.rows, id);
    assert(v.rows[k].clip.id == id);
    assert(after.rows[k].clip.id == id);
    lemma_id_index(after.rows, after.last_clip_id, k);
    if other != id && has_id(v.rows, other) {
        let j = id_index(v.rows, other);
        assert(v.rows[j].clip.id == other);
        assert(after.rows[j] == v.rows[j]);
        lemma_id_index(after.rows, after.last_clip_id, j);
    }
}

/// `rm` deletes the clip and no other.
pub proof fn law_remove_deletes(
    desk: Dispatcher,
    id: i64,
    req: Request,
    now: i64,
    uptime: u64,
    after: StoreView,
    step: StepView,
    other: i64,
)
    requires
        desk.store@.wf(),
        has_id(desk.store@.rows, id),
        requests(Command::Remove { id }, req),
        began(desk, req, now, uptime, after, step),
        other != id,
    ensures
        !has_id(after.rows, id),
        after.rows.len() == desk.store@.rows.len() - 1,
        has_id(after.rows, other) <==> has_id(desk.store@.rows, other),
        step == StepView::Reply(ResponseView::Done),
{
    let v = desk.store@;
    let k = id_index(v.rows, id);
    assert(v.rows[k].clip.id == id);
    law_delete_takes_one_clip(v, k, Member { board_id: 0, clip_id: 0, position: 0 });
    crate::laws::law_delete_is_complete(v, id, Seq::empty(), other);
}

/// `get` shows the clip with that id, as it is stored.
pub proof fn law_get_shows_the_clip(
    desk: Dispatcher,
    id: i64,
    req: Request,
    now: i64,
    uptime: u64,
    after: StoreView,
    step: StepView,
)
    requires
        desk.store@.wf(),
        has_id(desk.store@.rows, id),
        requests(Command::Get { id }, req),
        began(desk, req, now, uptime, after, step),
    ensures
        after == desk.store@,
        step matches StepView::Reply(ResponseView::Clip { clip }) && clip.id == id && exists|k: int|
            0 <= k < desk.store@.rows.len() && (#[trigger] desk.store@.rows[k]).clip == clip,
{
    let k = id_index(desk.store@.rows, id);
    assert(desk.store@.rows[k].clip.id == id);
}

/// `copy` puts the clip's text on the clipboard, or its payload where it has no
/// text, as it is stored.
pub proof fn law_copy_writes_the_content(
    desk: Dispatcher,
    id: i64,
    req: Request,
    now: i64,
    uptime: u64,
    after: StoreView,
    step: StepView,
    k: int,
)
    requires
        desk.store@.wf(),
        0 <= k < desk.store@.rows.len(),
        desk.store@.rows[k].clip.id == id,
        requests(Command::Copy { id }, req),
        began(desk, req, now, uptime, after, step),
    ensures
        after == desk.store@,
        ({
            let row = desk.store@.rows[k];
            &&& row.clip.text matches Some(text) ==> step == (StepView::Write {
                id,
                job: JobView::Text(text),
            })
            &&& row.clip.text is None ==> (row.bytes matches Some(bytes) ==> step
                == (StepView::Write { id, job: JobView::Image { bytes, mime: row.clip.mime } }))
            &&& row.clip.text is None && row.bytes is None ==> step is Reply
                && step->Reply_0 is Error
        }),
{
    lemma_id_index(desk.store@.rows, desk.store@.last_clip_id, k);
}

/// A copy that succeeded counts as a use: the clip becomes the most recent one, and
/// the reply shows it.
pub proof fn law_copy_counts_as_a_use(
    v: StoreView,
    after: StoreView,
    id: i64,
    now: i64,
    response: ResponseView,
    k: int,
)
    requires
        v.wf(),
        0 <= k < v.rows.len(),
        v.rows[k].clip.id == id,
        v.rows[k].clip.use_count < i64::MAX,
        v.rows.last().seq < i64::MAX,
        copied(v, after, id, None, now, response),
    ensures
        after.rows.len() == v.rows.len(),
        after.rows.last().clip.id == id,
        after.rows.last().clip.use_count == v.rows[k].clip.use_count + 1,
        after.rows.last().clip.last_used_at == now,
        after.rows.drop_last() == v.rows.remove(k),
        response matches ResponseView::Clip { clip } && clip == after.rows.last().clip,
{
    law_use_moves_one_row(v, id, now, k);
    assert(has_id(v.rows, id));
}

// ---- many clips --------------------------------------------------------

/// `clear` deletes the clips that are neither pinned nor on a pinboard, or with
/// `--all` every clip, and reports how many went.
pub proof fn law_clear_deletes(
    desk: Dispatcher,
    all: bool,
    yes: bool,
    req: Request,
    now: i64,
    uptime: u64,
    after: StoreView,
    step: StepView,
    row: RowView,
)
    requires
        desk.store@.wf(),
        desk.store@.rows.len() <= usize::MAX,
        requests(Command::Clear { all, yes }, req),
        began(desk, req, now, uptime, after, step),
    ensures
        after.rows.contains(row) <==> !all && desk.store@.rows.contains(row) && !loose(
            desk.store@,
            row,
        ),
        after.boards == desk.store@.boards,
        after.rows.len() <= desk.store@.rows.len(),
        step matches StepView::Reply(ResponseView::Count { count }) && count
            == desk.store@.rows.len() - after.rows.len(),
{
    let v = desk.store@;
    crate::history_laws::law_clear_takes_what_is_loose(v, row);
    v.rows.lemma_filter_len(|r: RowView| crate::model::is_protected(v.members, r));
}

/// `prune` applies the retention policy of the present settings and reports how
/// many clips went.
pub proof fn law_prune_applies_the_settings(
    desk: Dispatcher,
    req: Request,
    now: i64,
    uptime: u64,
    after: StoreView,
    step: StepView,
    i: int,
)
    requires
        desk.store@.wf(),
        desk.store@.rows.len() <= usize::MAX,
        requests(Command::Prune, req),
        began(desk, req, now, uptime, after, step),
        0 <= i < desk.store@.rows.len(),
    ensures
        ({
            let v = desk.store@;
            after.rows.contains(v.rows[i]) <==> (!loose(v, v.rows[i])
                || crate::capture_laws::recent_enough(desk.config@, now, v.rows[i])
                && crate::capture_laws::rivals(v, desk.config@, now, i) < desk.config@.max_items)
        }),
        step matches StepView::Reply(ResponseView::Count { count }) && count
            == (desk.store@.rows.len() - after.rows.len()) as usize,
{
    crate::capture_laws::law_prune_takes_no_more_than_it_must(desk.store@, desk.config@, now, i);
}

/// `list` shows stored clips only, of the kind asked for where one was, as many as
/// the page holds and in the order of the whole list.
pub proof fn law_list_shows_a_page(
    desk: Dispatcher,
    limit: usize,
    offset: usize,
    kind: Option<ClipKind>,
    now: i64,
    uptime: u64,
    after: StoreView,
    step: StepView,
)
    requires
        began(desk, Request::List { limit, offset, kind }, now, uptime, after, step),
    ensures
        after == desk.store@,
        step matches StepView::Reply(ResponseView::Clips { clips }) && {
            let rows = desk.store@.rows;
            let keep = |r: RowView| kind matches Some(k) ==> r.clip.kind == k;
            let total = rows.filter(keep).len();
            let room = granted(limit) as int;
            &&& forall|i: int|
                0 <= i < clips.len() ==> exists|k: int|
                    0 <= k < rows.len() && (#[trigger] rows[k]).clip == #[trigger] clips[i] && (
                    kind matches Some(wanted) ==> rows[k].clip.kind == wanted)
            &&& offset >= total ==> clips.len() == 0
            &&& offset + room <= total ==> clips.len() == room
            &&& offset < total < offset + room ==> clips.len() == total - offset
        },
{
    let rows = desk.store@.rows;
    let keep = |r: RowView| kind matches Some(k) ==> r.clip.kind == k;
    let clips = step->Reply_0->clips;
    let shown = match kind {
        Some(k) => listing(rows, |r: RowView| r.clip.kind == k),
        None => listing(rows, |r: RowView| true),
    };
    match kind {
        Some(k) => {
            let by = |r: RowView| r.clip.kind == k;
            lemma_listing_len(rows, by);
            crate::seqs::lemma_filter_same(rows, by, keep);
        },
        None => {
            let by = |r: RowView| true;
            lemma_listing_len(rows, by);
            crate::seqs::lemma_filter_same(rows, by, keep);
        },
    }
    law_page_is_a_window(shown, granted(limit), offset, 0);
    assert forall|i: int| 0 <= i < clips.len() implies exists|k: int|
        0 <= k < rows.len() && (#[trigger] rows[k]).clip == #[trigger] clips[i] && (
        kind matches Some(wanted) ==> rows[k].clip.kind == wanted) by {
        law_page_is_a_window(shown, granted(limit), offset, i);
        let row = shown[offset + i];
        assert(shown.contains(row));
        match kind {
            Some(k) => law_list_holds_what_was_asked_for(rows, |r: RowView| r.clip.kind == k, row),
            None => law_list_holds_what_was_asked_for(rows, |r: RowView| true, row),
        }
        let k = rows.index_of(row);
        assert(rows[k].clip == clips[i]);
    }
}

proof fn lemma_listing_len(rows: Seq<RowView>, keep: spec_fn(RowView) -> bool)
    ensures
        listing(rows, keep).len() == rows.filter(keep).len(),
    decreases rows.len(),
{
    reveal(Seq::filter);
    if rows.len() > 0 {
        lemma_listing_len(rows.drop_last(), keep);
    }
}

/// `list` hands the page and the kind on as they were given; a kind may be written
/// in either case, with dashes or underscores, blanks around it aside.
pub proof fn law_list_asks_for_the_kind(
    limit: usize,
    offset: usize,
    name: String,
    kind: ClipKind,
    lead: Seq<char>,
    spelled: Seq<char>,
    trail: Seq<char>,
    req: Request,
)
    requires
        requests(Command::List { limit, offset, kind: Some(name) }, req),
        name@ == lead + spelled + trail,
        crate::text::is_blank(lead),
        crate::text::is_blank(trail),
        spelled.len() == kind.name().len(),
        forall|i: int|
            0 <= i < spelled.len() ==> ({
                let want = kind.name()[i];
                let got = #[trigger] spelled[i];
                got == want || (want == '_' && got == '-') || ('a' <= want <= 'z' && got as u32 + 32
                    == want as u32)
            }),
    ensures
        req == (Request::List { limit, offset, kind: Some(kind) }),
{
    crate::cli_laws::law_kinds_may_be_spelled_freely(kind, lead, spelled, trail);
}

// ---- capturing ---------------------------------------------------------

/// Capturing what may be stored stores it, or uses it again where it is known, and
/// shows it; what may not be stored is refused with an error and leaves no trace.
pub proof fn law_capture_stores_or_refuses(
    v: StoreView,
    after: StoreView,
    clip: NewClip,
    cfg: ConfigView,
    now: i64,
    later: i64,
    response: ResponseView,
)
    requires
        v.wf(),
        captured(v, after, Ok(Some(clip)), cfg, now, later, response),
        content_size(clip@) <= 1_000_000_000,
        v.last_clip_id < i64::MAX,
        has_room(v),
        forall|i: int| 0 <= i < v.rows.len() ==> (#[trigger] v.rows[i]).clip.use_count < i64::MAX,
    ensures
        !may_be_stored(clip@, cfg) ==> after == v && response is Error,
        may_be_stored(clip@, cfg) ==> (response matches ResponseView::Clip { clip: shown }
            && shown.hash == clip@.digest() && shown.last_used_at == now),
{
    crate::capture_laws::law_refused_exactly_where_barred(v, clip@, cfg, now);
    if may_be_stored(clip@, cfg) {
        if crate::model::has_hash(v.rows, clip@.digest()) {
            let k = crate::model::hash_index(v.rows, clip@.digest());
            assert(v.rows[k].clip.hash == clip@.digest());
            crate::capture_laws::law_known_content_is_used_again(v, clip@, cfg, now, k);
        } else {
            crate::capture_laws::law_new_content_is_stored(v, clip@, cfg, now);
        }
    }
}

/// An empty clipboard, or one that cannot be read, is reported as an error and
/// changes nothing.
pub proof fn law_capture_of_nothing_is_an_error(
    v: StoreView,
    after: StoreView,
    outcome: clipboard::Result<Option<NewClip>>,
    cfg: ConfigView,
    now: i64,
    later: i64,
    response: ResponseView,
)
    requires
        captured(v, after, outcome, cfg, now, later, response),
        outcome is Err || outcome->Ok_0 is None,
    ensures
        after == v,
        response is Error,
{
}

// ---- pinboards ---------------------------------------------------------

/// `board create` makes a pinboard of that name, and is content where there is one.
pub proof fn law_board_create_makes_a_board(
    desk: Dispatcher,
    name: String,
    req: Request,
    now: i64,
    uptime: u64,
    after: StoreView,
    step: StepView,
)
    requires
        desk.store@.wf(),
        desk.store@.last_board_id < i64::MAX,
        desk.store@.boards.len() > 0 ==> desk.store@.boards.last().position < i64::MAX,
        requests(Command::Board(BoardCommand::Create { name }), req),
        began(desk, req, now, uptime, after, step),
    ensures
        has_name(after.boards, name@),
        has_name(desk.store@.boards, name@) ==> after == desk.store@,
        !has_name(desk.store@.boards, name@) ==> after.boards.len() == desk.store@.boards.len() + 1,
        after.rows == desk.store@.rows,
        after.members == desk.store@.members,
        step == StepView::Reply(ResponseView::Done),
{
    let v = desk.store@;
    if !has_name(v.boards, name@) {
        assert(after.boards[v.boards.len() as int].name == name@);
    }
}

/// `board delete` takes the pinboard of that name and keeps its clips.
pub proof fn law_board_delete_keeps_the_clips(
    desk: Dispatcher,
    name: String,
    req: Request,
    now: i64,
    uptime: u64,
    after: StoreView,
    step: StepView,
)
    requires
        desk.store@.wf(),
        has_name(desk.store@.boards, name@),
        requests(Command::Board(BoardCommand::Delete { name }), req),
        began(desk, req, now, uptime, after, step),
    ensures
        !has_name(after.boards, name@),
        after.boards.len() == desk.store@.boards.len() - 1,
        after.rows == desk.store@.rows,
        step == StepView::Reply(ResponseView::Done),
{
    let v = desk.store@;
    let k = name_index(v.boards, name@);
    assert(v.boards[k].name == name@);
    let m = Member { board_id: 0, clip_id: 0, position: 0 };
    crate::history_laws::law_deleted_board_keeps_its_clips(v, k, m);
    assert(v.board(name@) == v.boards[k]);
    if has_name(after.boards, name@) {
        let j = name_index(after.boards, name@);
        assert(after.boards[j].name == name@);
        if j < k {
            assert(v.boards[j].name != v.boards[k].name);
        } else {
            assert(after.boards[j] == v.boards[j + 1]);
            assert(v.boards[k].name != v.boards[j + 1].name);
        }
    }
}

/// `board add` puts the clip on the pinboard, where it is shown and protected;
/// `board remove` takes it off again. Either leaves the clips themselves alone.
pub proof fn law_board_add_and_remove(
    desk: Dispatcher,
    name: String,
    id: i64,
    adding: bool,
    req: Request,
    now: i64,
    uptime: u64,
    after: StoreView,
    step: StepView,
)
    requires
        desk.store@.wf(),
        has_name(desk.store@.boards, name@),
        has_id(desk.store@.rows, id),
        crate::model::next_member_position(desk.store@.members, desk.store@.board(name@).id)
            <= i64::MAX,
        requests(
            Command::Board(
                if adding {
                    BoardCommand::Add { name, id }
                } else {
                    BoardCommand::Remove { name, id }
                },
            ),
            req,
        ),
        began(desk, req, now, uptime, after, step),
    ensures
        has_member(after.members, desk.store@.board(name@).id, id) == adding,
        adding ==> !loose(after, after.row(id)),
        after.rows == desk.store@.rows,
        after.boards == desk.store@.boards,
        step == StepView::Reply(ResponseView::Done),
{
    let v = desk.store@;
    let board_id = v.board(name@).id;
    let k = id_index(v.rows, id);
    assert(v.rows[k].clip.id == id);
    if adding {
        if !has_member(v.members, board_id, id) {
            let m = after.members[v.members.len() as int];
            assert(m.board_id == board_id && m.clip_id == id);
        }
        let m = choose|m: int|
            0 <= m < after.members.len() && (#[trigger] after.members[m]).board_id == board_id
                && after.members[m].clip_id == id;
        assert(after.members[m].clip_id == after.row(id).clip.id);
    } else if has_member(after.members, board_id, id) {
        let m = choose|m: int|
            0 <= m < after.members.len() && (#[trigger] after.members[m]).board_id == board_id
                && after.members[m].clip_id == id;
        crate::history_laws::law_removed_member_leaves_the_others(
            v,
            board_id,
            id,
            after.members[m],
        );
        assert(after.members.contains(after.members[m]));
    }
}

/// `board show` shows the clips on the pinboard, in the order of their places.
pub proof fn law_board_show_shows_the_clips(
    desk: Dispatcher,
    name: String,
    limit: usize,
    req: Request,
    now: i64,
    uptime: u64,
    after: StoreView,
    step: StepView,
    i: int,
)
    requires
        has_name(desk.store@.boards, name@),
        requests(Command::Board(BoardCommand::Show { name, limit }), req),
        began(desk, req, now, uptime, after, step),
    ensures
        after == desk.store@,
        step matches StepView::Reply(ResponseView::Clips { clips }) && {
            let on = desk.store@.board_rows(desk.store@.board(name@).id);
            &&& clips.len() == (if on.len() <= granted(limit) {
                on.len() as int
            } else {
                granted(limit) as int
            })
            &&& 0 <= i < clips.len() ==> clips[i] == on[i].clip
        },
{
}

// ---- status ------------------------------------------------------------

/// `status` reports what is so: the counts of the history, the settings and the
/// backend in use.
pub proof fn law_status_reports_the_history(
    desk: Dispatcher,
    req: Request,
    now: i64,
    uptime: u64,
    after: StoreView,
    step: StepView,
)
    requires
        requests(Command::Status, req),
        began(desk, req, now, uptime, after, step),
        crate::model::sizes_fit(desk.store@.rows),
        desk.store@.rows.len() <= i64::MAX,
        desk.store@.boards.len() <= i64::MAX,
    ensures
        after == desk.store@,
        step matches StepView::Reply(ResponseView::Status(report)) && {
            &&& report.stats.total_clips == desk.store@.rows.len()
            &&& report.stats.pinboards == desk.store@.boards.len()
            &&& report.stats.full_text_search == desk.store.full_text()
            &&& report.backend == desk.backend_name@
            &&& report.data_dir == desk.data_dir@
            &&& report.uptime_secs == uptime
            &&& report.poll_interval_ms == desk.config.poll_interval_ms
        },
{
}

// ---- searching and the rest --------------------------------------------

/// Where full-text search is at work, `search` shows stored clips only, each with a
/// text that satisfies the expression for the words of the query, and all of them
/// where the page has room; a query without words shows the whole list.
pub proof fn law_search_shows_what_matches(
    desk: Dispatcher,
    query: String,
    limit: usize,
    now: i64,
    uptime: u64,
    after: StoreView,
    step: StepView,
)
    requires
        desk.store@.wf(),
        crate::store::index_answers(desk.store, query@),
        began(desk, Request::Search { query, limit }, now, uptime, after, step),
    ensures
        after == desk.store@,
        step matches StepView::Reply(ResponseView::Clips { clips }) && {
            let rows = desk.store@.rows;
            let words = crate::search::query_tokens(query@);
            let expr = crate::search::match_expression(words);
            let all = listing(rows, |r: RowView| true);
            &&& clips.len() <= granted(limit)
            &&& words.len() > 0 ==> (forall|i: int|
                0 <= i < clips.len() ==> exists|k: int|
                    0 <= k < rows.len() && (#[trigger] rows[k]).clip == #[trigger] clips[i]
                        && crate::search_laws::satisfies(rows[k], expr))
            &&& words.len() > 0 && clips.len() < granted(limit) ==> (forall|k: int|
                0 <= k < rows.len() && crate::search_laws::satisfies(#[trigger] rows[k], expr)
                    ==> clips.contains(rows[k].clip))
            &&& words.len() == 0 ==> (forall|i: int|
                0 <= i < clips.len() ==> #[trigger] clips[i] == all[i].clip)
        },
{
    let words = crate::search::query_tokens(query@);
    if words.len() > 0 {
        crate::search_laws::law_index_search_is_exact(
            desk.store@,
            crate::search::match_expression(words),
            granted(limit),
            step->Reply_0->clips,
        );
    }
}

/// A payload is sent in base64, and a clip without one says so.
pub proof fn law_payloads_are_sent(
    desk: Dispatcher,
    id: i64,
    now: i64,
    uptime: u64,
    after: StoreView,
    step: StepView,
    k: int,
)
    requires
        desk.store@.wf(),
        0 <= k < desk.store@.rows.len(),
        desk.store@.rows[k].clip.id == id,
        began(desk, Request::GetBytes { id }, now, uptime, after, step),
    ensures
        step matches StepView::Reply(ResponseView::Bytes { base64 }) && (
        desk.store@.rows[k].bytes matches Some(bytes) ==> base64 == Some(
            crate::trusted::base64_standard(bytes),
        )) && (desk.store@.rows[k].bytes is None ==> base64 is None),
{
    lemma_id_index(desk.store@.rows, desk.store@.last_clip_id, k);
}

/// The pinboards are listed all, in order, each with its name and how many clips
/// are on it.
pub proof fn law_pinboards_are_listed(
    desk: Dispatcher,
    now: i64,
    uptime: u64,
    after: StoreView,
    step: StepView,
    i: int,
)
    requires
        began(desk, Request::Pinboards, now, uptime, after, step),
        0 <= i < desk.store@.boards.len(),
        desk.store@.members.len() <= i64::MAX,
    ensures
        after == desk.store@,
        step matches StepView::Reply(ResponseView::Pinboards { pinboards }) && pinboards.len()
            == desk.store@.boards.len() && pinboards[i].name == desk.store@.boards[i].name
            && pinboards[i].clip_count == desk.store@.members.filter(
            |m: Member| m.board_id == desk.store@.boards[i].id,
        ).len(),
{
    let id = desk.store@.boards[i].id;
    desk.store@.members.lemma_filter_len(|m: Member| m.board_id == id);
}

/// A request that names a missing pinboard is answered with an error and changes
/// nothing.
pub proof fn law_missing_board_is_an_error(
    desk: Dispatcher,
    req: Request,
    name: String,
    now: i64,
    uptime: u64,
    after: StoreView,
    step: StepView,
)
    requires
        began(desk, req, now, uptime, after, step),
        !has_name(desk.store@.boards, name@),
        (req matches Request::PinboardDelete { name: n } && n == name) || (
        req matches Request::PinboardAdd { name: n, id } && n == name) || (
        req matches Request::PinboardRemove { name: n, id } && n == name) || (
        req matches Request::PinboardClips { name: n, limit } && n == name),
    ensures
        after == desk.store@,
        step is Reply,
        step->Reply_0 is Error,
{
}

/// Storing new content applies the retention policy to the history with the new
/// clip in it; using known content again applies none.
pub proof fn law_new_content_is_pruned_with(
    v: StoreView,
    clip: NewClipView,
    cfg: ConfigView,
    now: i64,
    later: i64,
    row: RowView,
)
    requires
        v.wf(),
        v.offer(clip, cfg, now) is Add,
        v.rows.contains(row),
        !loose(v, row),
    ensures
        ingested(v, clip, cfg, now, later).rows.contains(row),
        ingested(v, clip, cfg, now, later).members == v.members,
        ingested(v, clip, cfg, now, later).boards == v.boards,
{
    let grown = v.apply(v.offer(clip, cfg, now)->Add_0);
    let k = v.rows.index_of(row);
    assert(grown.rows[k] == row);
    assert(grown.rows.contains(row));
    crate::capture_laws::law_pins_and_boards_protect(v, row);
    crate::laws::law_prune_spares_protected(grown, cfg, later, row);
}

} // verus!
