//! What holds of the history across operations.

use vstd::prelude::*;
use crate::clip::{ClipView, NewClipView};
use crate::config::ConfigView;
use crate::model::{
    age_cutoff, can_settle, drop_oldest, has_id, has_member, has_name, id_index, is_member, is_protected,
    lemma_id_index, lemma_removed_rows, lemma_use_wf, listing, page, placed, ranked, ranks_before,
    row_wf, rows_wf, settled, settled_seq, survives_age, unprotected, ChangeView, Member, Offer,
    RowView, SkipReason, StoreView,
};
use crate::seqs::{
    lemma_filter_has, lemma_filter_none, lemma_source, lemma_source_ascends, source,
};
use crate::store::{changed, journaled, lemma_apply_all_join, matches_index, unchanged, Store};

verus! {

// ---- what is stored ----------------------------------------------------

/// A concealed clip is never stored, whatever else it carries.
pub proof fn law_concealed_is_never_stored(
    v: StoreView,
    clip: NewClipView,
    cfg: ConfigView,
    now: i64,
)
    requires
        clip.concealed,
    ensures
        v.offer(clip, cfg, now) == Offer::Skip(SkipReason::Concealed),
{
}

/// Content that is already stored is never stored again: offering it leads to
/// no second row, wherever it was copied from.
pub proof fn law_same_content_is_stored_once(
    v: StoreView,
    clip: NewClipView,
    again: NewClipView,
    cfg: ConfigView,
    now: i64,
    later: i64,
)
    requires
        v.offer(clip, cfg, now) is Add,
        again.mime == clip.mime,
        again.kind == clip.kind,
        again.text == clip.text,
        again.bytes == clip.bytes,
    ensures
        !(v.apply(v.offer(clip, cfg, now)->Add_0).offer(again, cfg, later) is Add),
{
    let after = v.apply(v.offer(clip, cfg, now)->Add_0);
    assert(after.rows[after.rows.len() - 1].clip.hash == clip.digest());
    assert(again.preimage() == clip.preimage());
}

/// A stored clip reads back as it was offered: text, payload, kind, type and
/// source, used once, unpinned, under a new id.
pub proof fn law_stored_clip_reads_back(
    v: StoreView,
    clip: NewClipView,
    cfg: ConfigView,
    now: i64,
)
    requires
        v.wf(),
        v.offer(clip, cfg, now) is Add,
    ensures
        ({
            let after = v.apply(v.offer(clip, cfg, now)->Add_0);
            let id = after.last_clip_id;
            let row = after.row(id);
            &&& !has_id(v.rows, id)
            &&& has_id(after.rows, id)
            &&& row.clip.text == clip.text
            &&& row.bytes == clip.bytes
            &&& row.clip.kind == clip.kind
            &&& row.clip.mime == clip.mime
            &&& row.clip.source_app == clip.source_app
            &&& row.clip.source_bundle_id == clip.source_bundle_id
            &&& row.clip.created_at == now
            &&& row.clip.use_count == 1
            &&& !row.clip.pinned
        }),
{
    let row = v.new_row(clip, now);
    let after = v.apply(ChangeView::Add(row));
    crate::model::lemma_add_wf(v, row);
    lemma_id_index(after.rows, after.last_clip_id, after.rows.len() - 1);
    if has_id(v.rows, row.clip.id) {
        let k = id_index(v.rows, row.clip.id);
        assert(v.rows[k].clip.id <= v.last_clip_id);
    }
}

/// Using a clip again changes neither its content nor when, whence and how it
/// was first stored; it counts one use more and becomes the most recent row.
pub proof fn law_use_keeps_content(v: StoreView, id: i64, now: i64)
    requires
        v.wf(),
        has_id(v.rows, id),
        v.can_use(id),
    ensures
        ({
            let was = v.row(id);
            let after = v.apply(v.use_of(id, now));
            let row = after.rows.last();
            &&& after.rows.len() == v.rows.len()
            &&& row.clip == (ClipView {
                last_used_at: now,
                use_count: (was.clip.use_count + 1) as i64,
                ..was.clip
            })
            &&& row.bytes == was.bytes
            &&& row.clip.use_count == was.clip.use_count + 1
            &&& forall|i: int| 0 <= i < after.rows.len() - 1 ==> (#[trigger] after.rows[i]).seq < row.seq
        }),
{
    lemma_use_wf(v, id, now);
}

/// A clip that was just used heads the list: the whole list where it is pinned,
/// else the unpinned part of it.
pub proof fn law_used_clip_heads_the_list(v: StoreView, id: i64, now: i64)
    requires
        v.wf(),
        has_id(v.rows, id),
        v.can_use(id),
    ensures
        ({
            let after = v.apply(v.use_of(id, now));
            let all = listing(after.rows, |r: RowView| true);
            let pinned = after.rows.filter(|r: RowView| r.clip.pinned).len() as int;
            if v.row(id).clip.pinned {
                0 < all.len() && all[0].clip.id == id
            } else {
                pinned < all.len() && all[pinned].clip.id == id
            }
        }),
{
    lemma_use_wf(v, id, now);
    let after = v.apply(v.use_of(id, now));
    let keep = |r: RowView| true;
    let up = |r: RowView| keep(r) && r.clip.pinned;
    let down = |r: RowView| keep(r) && !r.clip.pinned;
    crate::seqs::lemma_filter_same(after.rows, up, |r: RowView| r.clip.pinned);
    reveal(Seq::filter);
    let ups = after.rows.filter(up);
    let downs = after.rows.filter(down);
    let all = listing(after.rows, keep);
    assert(all == ups.reverse() + downs.reverse());
    if v.row(id).clip.pinned {
        assert(ups.last() == after.rows.last());
        assert(all[0] == ups.last());
    } else {
        assert(downs.last() == after.rows.last());
        assert(all[ups.len() as int] == downs.last());
    }
}

// ---- lists -------------------------------------------------------------

/// A list of the whole history holds every row once: as many as there are, each
/// of them a row, and every row among them.
pub proof fn law_list_is_complete(rows: Seq<RowView>)
    ensures
        listing(rows, |r: RowView| true).len() == rows.len(),
        forall|i: int|
            0 <= i < rows.len() ==> listing(rows, |r: RowView| true).contains(#[trigger] rows[i]),
{
    let keep = |r: RowView| true;
    let up = |r: RowView| keep(r) && r.clip.pinned;
    let down = |r: RowView| keep(r) && !r.clip.pinned;
    lemma_split_len(rows, up, down);
    let all = listing(rows, keep);
    let ups = rows.filter(up);
    let downs = rows.filter(down);
    assert(all == ups.reverse() + downs.reverse());
    assert forall|i: int| 0 <= i < rows.len() implies all.contains(#[trigger] rows[i]) by {
        if rows[i].clip.pinned {
            let k = lemma_filter_has(rows, up, i);
            assert(all[ups.len() - 1 - k] == rows[i]);
        } else {
            let k = lemma_filter_has(rows, down, i);
            assert(all[ups.len() + (downs.len() - 1 - k)] == rows[i]);
        }
    }
}

/// Filters that share out a sequence share out its length.
proof fn lemma_split_len<A>(s: Seq<A>, p: spec_fn(A) -> bool, q: spec_fn(A) -> bool)
    requires
        forall|i: int| 0 <= i < s.len() ==> p(#[trigger] s[i]) != q(s[i]),
    ensures
        s.filter(p).len() + s.filter(q).len() == s.len(),
    decreases s.len(),
{
    reveal(Seq::filter);
    if s.len() > 0 {
        assert forall|i: int| 0 <= i < s.drop_last().len() implies p(#[trigger] s.drop_last()[i])
            != q(s.drop_last()[i]) by {
            assert(s.drop_last()[i] == s[i]);
        }
        lemma_split_len(s.drop_last(), p, q);
        assert(p(s[s.len() - 1]) != q(s[s.len() - 1]));
    }
}

/// In any list, pinned rows stand before the others, and within either group
/// what was used later stands first.
pub proof fn law_list_order(v: StoreView, keep: spec_fn(RowView) -> bool, i: int, j: int)
    requires
        v.wf(),
        0 <= i < j < listing(v.rows, keep).len(),
    ensures
        ({
            let x = listing(v.rows, keep)[i];
            let y = listing(v.rows, keep)[j];
            &&& keep(x)
            &&& y.clip.pinned ==> x.clip.pinned
            &&& x.clip.pinned == y.clip.pinned ==> x.seq > y.seq
        }),
{
    let rows = v.rows;
    let up = |r: RowView| keep(r) && r.clip.pinned;
    let down = |r: RowView| keep(r) && !r.clip.pinned;
    let ups = rows.filter(up);
    let downs = rows.filter(down);
    let all = listing(rows, keep);
    assert(all == ups.reverse() + downs.reverse());
    let n = ups.len() as int;
    if i < n {
        let a = n - 1 - i;
        lemma_source(rows, up, a);
        assert(all[i] == ups[a]);
        if j < n {
            let b = n - 1 - j;
            lemma_source(rows, up, b);
            lemma_source_ascends(rows, up, b, a);
            assert(all[j] == ups[b]);
            assert(rows[source(rows, up, b)].seq < rows[source(rows, up, a)].seq);
        } else {
            let b = downs.len() - 1 - (j - n);
            lemma_source(rows, down, b);
            assert(all[j] == downs[b]);
        }
    } else {
        let a = downs.len() - 1 - (i - n);
        let b = downs.len() - 1 - (j - n);
        lemma_source(rows, down, a);
        lemma_source(rows, down, b);
        lemma_source_ascends(rows, down, b, a);
        assert(all[i] == downs[a]);
        assert(all[j] == downs[b]);
        assert(rows[source(rows, down, b)].seq < rows[source(rows, down, a)].seq);
    }
}

/// No list carries a payload: clips are listed without their bytes.
pub proof fn law_lists_carry_no_payload(v: StoreView, keep: spec_fn(RowView) -> bool, i: int)
    requires
        v.wf(),
        0 <= i < listing(v.rows, keep).len(),
    ensures
        listing(v.rows, keep)[i].clip.bytes is None,
{
    let rows = v.rows;
    let up = |r: RowView| keep(r) && r.clip.pinned;
    let down = |r: RowView| keep(r) && !r.clip.pinned;
    let ups = rows.filter(up);
    let downs = rows.filter(down);
    let all = listing(rows, keep);
    assert(all == ups.reverse() + downs.reverse());
    if i < ups.len() {
        let a = ups.len() - 1 - i;
        lemma_source(rows, up, a);
        assert(all[i] == rows[source(rows, up, a)]);
    } else {
        let a = downs.len() - 1 - (i - ups.len());
        lemma_source(rows, down, a);
        assert(all[i] == rows[source(rows, down, a)]);
    }
}

/// Consecutive pages continue each other without gap or overlap.
pub proof fn law_pages_continue<A>(all: Seq<A>, offset: usize, first: usize, second: usize)
    requires
        offset + first <= usize::MAX,
        first + second <= usize::MAX,
    ensures
        page(all, first, offset) + page(all, second, (offset + first) as usize) == page(
            all,
            (first + second) as usize,
            offset,
        ),
{
}

// ---- retention ---------------------------------------------------------

proof fn lemma_unprotected_front(rows: Seq<RowView>, members: Seq<Member>)
    requires
        rows.len() > 0,
    ensures
        unprotected(rows, members) == unprotected(rows.drop_first(), members) + (if is_protected(
            members,
            rows[0],
        ) {
            0nat
        } else {
            1
        }),
{
    let free = |r: RowView| !is_protected(members, r);
    assert(rows == seq![rows[0]] + rows.drop_first());
    Seq::filter_distributes_over_add(seq![rows[0]], rows.drop_first(), free);
    reveal(Seq::filter);
    assert(seq![rows[0]].drop_last() == Seq::<RowView>::empty());
    assert(seq![rows[0]].drop_last().filter(free).len() == 0);
}

pub proof fn lemma_drop_oldest(rows: Seq<RowView>, count: nat, members: Seq<Member>)
    requires
        count <= unprotected(rows, members),
    ensures
        unprotected(drop_oldest(rows, count, members), members) == unprotected(rows, members)
            - count,
        forall|r: RowView| #[trigger]
            rows.contains(r) && is_protected(members, r) ==> drop_oldest(
                rows,
                count,
                members,
            ).contains(r),
        forall|r: RowView| #[trigger]
            drop_oldest(rows, count, members).contains(r) ==> rows.contains(r),
    decreases rows.len(),
{
    let res = drop_oldest(rows, count, members);
    if count == 0 || rows.len() == 0 {
        if rows.len() == 0 {
            lemma_filter_none(rows, |r: RowView| !is_protected(members, r));
        }
    } else {
        let rest = rows.drop_first();
        lemma_unprotected_front(rows, members);
        let left: nat = if is_protected(members, rows[0]) {
            count
        } else {
            (count - 1) as nat
        };
        lemma_drop_oldest(rest, left, members);
        let tail = drop_oldest(rest, left, members);
        if is_protected(members, rows[0]) {
            assert(res == seq![rows[0]] + tail);
            lemma_unprotected_front(res, members);
            assert(res.drop_first() == tail);
        }
        assert forall|r: RowView| #[trigger]
            rows.contains(r) && is_protected(members, r) implies res.contains(r) by {
            let i = rows.index_of(r);
            assert(rows[i] == r);
            if i == 0 {
                assert(res[0] == r);
            } else {
                assert(rest[i - 1] == r);
                assert(rest.contains(r));
                assert(tail.contains(r));
                let k = tail.index_of(r);
                if is_protected(members, rows[0]) {
                    assert(res[k + 1] == r);
                }
            }
        }
        assert forall|r: RowView| #[trigger] res.contains(r) implies rows.contains(r) by {
            let k = res.index_of(r);
            assert(res[k] == r);
            if is_protected(members, rows[0]) && k == 0 {
                assert(rows[0] == r);
            } else {
                if is_protected(members, rows[0]) {
                    assert(tail[k - 1] == r);
                }
                assert(tail.contains(r));
                assert(rest.contains(r));
                let i = rest.index_of(r);
                assert(rows[i + 1] == r);
            }
        }
    }
}

/// How many rows the cap makes go.
spec fn excess(young: Seq<RowView>, members: Seq<Member>, cap: nat) -> nat {
    if unprotected(young, members) > cap {
        (unprotected(young, members) - cap) as nat
    } else {
        0
    }
}

/// Pinned clips and clips on a pinboard survive pruning, and pruning adds none.
pub proof fn law_prune_spares_protected(v: StoreView, cfg: ConfigView, now: i64, row: RowView)
    ensures
        v.rows.contains(row) && is_protected(v.members, row) ==> v.pruned(cfg, now).rows.contains(
            row,
        ),
        v.pruned(cfg, now).rows.contains(row) ==> v.rows.contains(row),
        v.pruned(cfg, now).members == v.members,
        v.pruned(cfg, now).boards == v.boards,
{
    let young = v.aged(cfg, now);
    let p = |r: RowView| survives_age(v.members, age_cutoff(cfg, now), r);
    lemma_drop_oldest(young, excess(young, v.members, cfg.max_items as nat), v.members);
    if v.rows.contains(row) && is_protected(v.members, row) {
        let k = v.rows.index_of(row);
        let i = lemma_filter_has(v.rows, p, k);
        assert(young[i] == row);
        assert(young.contains(row));
    }
    if young.contains(row) {
        let i = young.index_of(row);
        lemma_source(v.rows, p, i);
        assert(v.rows[source(v.rows, p, i)] == row);
    }
}

/// After pruning, no more unprotected clips are left than the cap allows, and
/// none of them is older than the retention time.
pub proof fn law_prune_enforces_limits(v: StoreView, cfg: ConfigView, now: i64)
    ensures
        unprotected(v.pruned(cfg, now).rows, v.members) <= cfg.max_items,
        forall|row: RowView| #[trigger]
            v.pruned(cfg, now).rows.contains(row) && !is_protected(v.members, row)
                && cfg.retention_days > 0 ==> row.clip.created_at >= now - cfg.retention_days
                * 86_400,
{
    let young = v.aged(cfg, now);
    let p = |r: RowView| survives_age(v.members, age_cutoff(cfg, now), r);
    lemma_drop_oldest(young, excess(young, v.members, cfg.max_items as nat), v.members);
    assert forall|row: RowView| #[trigger]
        v.pruned(cfg, now).rows.contains(row) && !is_protected(v.members, row)
            && cfg.retention_days > 0 implies row.clip.created_at >= now - cfg.retention_days
        * 86_400 by {
        assert(young.contains(row));
        let i = young.index_of(row);
        lemma_source(v.rows, p, i);
    }
}

/// The last row stays where it is protected or not every unprotected row goes.
proof fn lemma_last_stays(rows: Seq<RowView>, count: nat, members: Seq<Member>)
    requires
        rows.len() > 0,
        is_protected(members, rows.last()) || count < unprotected(rows, members),
    ensures
        drop_oldest(rows, count, members).len() > 0,
        drop_oldest(rows, count, members).last() == rows.last(),
    decreases rows.len(),
{
    if count > 0 {
        let rest = rows.drop_first();
        lemma_unprotected_front(rows, members);
        if rest.len() == 0 {
            lemma_filter_none(rest, |r: RowView| !is_protected(members, r));
            assert(is_protected(members, rows[0]));
            assert(drop_oldest(rest, count, members) == rest);
        } else {
            assert(rest.last() == rows.last());
            let left: nat = if is_protected(members, rows[0]) {
                count
            } else {
                (count - 1) as nat
            };
            lemma_last_stays(rest, left, members);
        }
    }
}

/// The most recent clip survives pruning where the cap leaves room for one and
/// the clip is not too old itself.
pub proof fn law_prune_spares_the_latest(v: StoreView, cfg: ConfigView, now: i64)
    requires
        v.rows.len() > 0,
        cfg.max_items >= 1,
        survives_age(v.members, age_cutoff(cfg, now), v.rows.last()),
    ensures
        v.pruned(cfg, now).rows.len() > 0,
        v.pruned(cfg, now).rows.last() == v.rows.last(),
{
    let p = |r: RowView| survives_age(v.members, age_cutoff(cfg, now), r);
    let young = v.aged(cfg, now);
    let free = |r: RowView| !is_protected(v.members, r);
    reveal(Seq::filter);
    assert(young.last() == v.rows.last());
    if !is_protected(v.members, young.last()) {
        assert(free(young.last()));
        assert(unprotected(young, v.members) >= 1);
    }
    lemma_last_stays(young, excess(young, v.members, cfg.max_items as nat), v.members);
}

proof fn lemma_oldest_go_first(
    rows: Seq<RowView>,
    count: nat,
    members: Seq<Member>,
    gone: RowView,
    left: RowView,
)
    requires
        forall|i: int, j: int|
            0 <= i < j < rows.len() ==> (#[trigger] rows[i]).seq < (#[trigger] rows[j]).seq,
        count <= unprotected(rows, members),
        rows.contains(gone),
        !drop_oldest(rows, count, members).contains(gone),
        drop_oldest(rows, count, members).contains(left),
        !is_protected(members, left),
    ensures
        gone.seq < left.seq,
    decreases rows.len(),
{
    if count > 0 && rows.len() > 0 {
        let rest = rows.drop_first();
        let res = drop_oldest(rows, count, members);
        lemma_unprotected_front(rows, members);
        let fewer: nat = if is_protected(members, rows[0]) {
            count
        } else {
            (count - 1) as nat
        };
        let tail = drop_oldest(rest, fewer, members);
        lemma_drop_oldest(rest, fewer, members);
        let k = res.index_of(left);
        assert(res[k] == left);
        if is_protected(members, rows[0]) {
            assert(res == seq![rows[0]] + tail);
            assert(k > 0);
            assert(tail[k - 1] == left);
        }
        assert(tail.contains(left));
        let i = rows.index_of(gone);
        assert(rows[i] == gone);
        if i == 0 {
            if is_protected(members, rows[0]) {
                assert(res[0] == gone);
            }
            assert(rest.contains(left));
            let j = rest.index_of(left);
            assert(rows[j + 1] == left);
        } else {
            assert(rest[i - 1] == gone);
            assert(rest.contains(gone));
            if tail.contains(gone) {
                let g = tail.index_of(gone);
                if is_protected(members, rows[0]) {
                    assert(res[g + 1] == gone);
                }
            }
            assert forall|a: int, b: int| 0 <= a < b < rest.len() implies (#[trigger] rest[a]).seq
                < (#[trigger] rest[b]).seq by {
                assert(rows[a + 1].seq < rows[b + 1].seq);
            }
            lemma_oldest_go_first(rest, fewer, members, gone, left);
        }
    }
}

/// The cap takes the least recently used: a clip that age pruning spared and the
/// cap removed was used before every unprotected clip that is left.
pub proof fn law_cap_takes_least_recent(
    v: StoreView,
    cfg: ConfigView,
    now: i64,
    gone: RowView,
    left: RowView,
)
    requires
        v.wf(),
        v.aged(cfg, now).contains(gone),
        !v.pruned(cfg, now).rows.contains(gone),
        v.pruned(cfg, now).rows.contains(left),
        !is_protected(v.members, left),
    ensures
        gone.seq < left.seq,
{
    let young = v.aged(cfg, now);
    let p = |r: RowView| survives_age(v.members, age_cutoff(cfg, now), r);
    assert forall|i: int, j: int| 0 <= i < j < young.len() implies (#[trigger] young[i]).seq < (
    #[trigger] young[j]).seq by {
        lemma_source(v.rows, p, i);
        lemma_source(v.rows, p, j);
        lemma_source_ascends(v.rows, p, i, j);
        assert(v.rows[source(v.rows, p, i)].seq < v.rows[source(v.rows, p, j)].seq);
    }
    lemma_oldest_go_first(
        young,
        excess(young, v.members, cfg.max_items as nat),
        v.members,
        gone,
        left,
    );
}

/// Pruning again at the same time changes nothing.
pub proof fn law_prune_settles(v: StoreView, cfg: ConfigView, now: i64)
    ensures
        v.pruned(cfg, now).pruned(cfg, now) == v.pruned(cfg, now),
{
    let once = v.pruned(cfg, now);
    law_prune_enforces_limits(v, cfg, now);
    let p = |r: RowView| survives_age(v.members, age_cutoff(cfg, now), r);
    assert forall|i: int| 0 <= i < once.rows.len() implies p(#[trigger] once.rows[i]) by {
        assert(once.rows.contains(once.rows[i]));
    }
    crate::seqs::lemma_filter_all(once.rows, p);
    assert(once.aged(cfg, now) == once.rows);
}

/// Clearing leaves exactly the pinned clips and those on a pinboard; clearing
/// everything leaves no clip and no membership.
pub proof fn law_clear_leaves_protected(v: StoreView, row: RowView)
    ensures
        v.cleared(false).rows.contains(row) <==> v.rows.contains(row) && is_protected(
            v.members,
            row,
        ),
        v.cleared(false).members == v.members,
        v.cleared(true).rows.len() == 0,
        v.cleared(true).members.len() == 0,
        v.cleared(true).boards == v.boards,
{
    let p = |r: RowView| is_protected(v.members, r);
    let kept = v.rows.filter(p);
    if v.rows.contains(row) && p(row) {
        let i = lemma_filter_has(v.rows, p, v.rows.index_of(row));
        assert(kept[i] == row);
    }
    if kept.contains(row) {
        let i = kept.index_of(row);
        lemma_source(v.rows, p, i);
        assert(v.rows[source(v.rows, p, i)] == row);
    }
}

// ---- deleting and pinboards --------------------------------------------

/// A deleted clip is gone everywhere: from the rows, from every pinboard and
/// from what any search can find. Every other clip stays.
pub proof fn law_delete_is_complete(v: StoreView, id: i64, expr: Seq<char>, other: i64)
    requires
        v.wf(),
        has_id(v.rows, id),
        other != id,
    ensures
        ({
            let after = v.apply(ChangeView::Drop(id));
            &&& !has_id(after.rows, id)
            &&& !is_member(after.members, id)
            &&& !matches_index(after.rows, id, expr)
            &&& has_id(after.rows, other) <==> has_id(v.rows, other)
            &&& is_member(after.members, other) <==> is_member(v.members, other)
        }),
{
    let i = id_index(v.rows, id);
    assert(v.rows[i].clip.id == id);
    lemma_removed_rows(v.rows, v.last_clip_id, i);
    let after = v.apply(ChangeView::Drop(id));
    let p = |m: Member| m.clip_id != id;
    assert(after.members == v.members.filter(p));
    if is_member(after.members, id) {
        let k = choose|k: int|
            0 <= k < after.members.len() && (#[trigger] after.members[k]).clip_id == id;
        lemma_source(v.members, p, k);
    }
    if is_member(after.members, other) {
        let k = choose|k: int|
            0 <= k < after.members.len() && (#[trigger] after.members[k]).clip_id == other;
        lemma_source(v.members, p, k);
        assert(v.members[source(v.members, p, k)].clip_id == other);
    }
    if is_member(v.members, other) {
        let k = choose|k: int|
            0 <= k < v.members.len() && (#[trigger] v.members[k]).clip_id == other;
        let j = lemma_filter_has(v.members, p, k);
        assert(after.members[j].clip_id == other);
    }
}

/// A board that was created is found under its name, so creating it again finds
/// it too; deleting it leaves no board of that name and none of its memberships.
pub proof fn law_board_name_is_found(v: StoreView, name: Seq<char>, now: i64)
    requires
        v.wf(),
        !has_name(v.boards, name),
        v.last_board_id < i64::MAX,
        crate::model::next_board_position(v.boards) <= i64::MAX,
    ensures
        ({
            let after = v.apply(ChangeView::AddBoard(v.new_board(name, now)));
            &&& has_name(after.boards, name)
            &&& after.board(name) == v.new_board(name, now)
            &&& after.apply(ChangeView::DropBoard(after.board(name).id)) == (StoreView {
                last_board_id: after.last_board_id,
                ..v
            })
        }),
{
    let board = v.new_board(name, now);
    let after = v.apply(ChangeView::AddBoard(board));
    crate::model::lemma_add_board_wf(v, board);
    let n = after.boards.len() - 1;
    assert(after.boards[n] == board);
    crate::model::lemma_name_index(after.boards, after.last_board_id, n);
    crate::model::lemma_board_index(after.boards, after.last_board_id, n);
    assert(after.boards.remove(n) == v.boards);
    let p = |m: Member| m.board_id != board.id;
    assert forall|i: int| 0 <= i < v.members.len() implies p(#[trigger] v.members[i]) by {
        assert(crate::model::has_board(v.boards, v.members[i].board_id));
        let k = crate::model::board_index(v.boards, v.members[i].board_id);
        assert(v.boards[k].id <= v.last_board_id);
    }
    crate::seqs::lemma_filter_all(v.members, p);
}

/// A clip put on a board is on it and protected from then on, and taking it off
/// again restores the history.
pub proof fn law_board_membership(v: StoreView, board_id: i64, clip_id: i64, position: i64)
    requires
        v.wf(),
        !has_member(v.members, board_id, clip_id),
        has_id(v.rows, clip_id),
    ensures
        ({
            let member = Member { board_id, clip_id, position };
            let after = v.apply(ChangeView::AddMember(member));
            &&& has_member(after.members, board_id, clip_id)
            &&& is_protected(after.members, after.row(clip_id))
            &&& after.apply(ChangeView::DropMember { board_id, clip_id }) == v
        }),
{
    let member = Member { board_id, clip_id, position };
    let after = v.apply(ChangeView::AddMember(member));
    assert(after.members[v.members.len() as int] == member);
    let k = id_index(v.rows, clip_id);
    assert(v.rows[k].clip.id == clip_id);
    let p = |m: Member| !(m.board_id == board_id && m.clip_id == clip_id);
    crate::seqs::lemma_filter_all(v.members, p);
    reveal(Seq::filter);
    assert(after.members.drop_last() == v.members);
}

/// Pinning and then unpinning an unpinned clip restores the history.
pub proof fn law_unpin_undoes_pin(v: StoreView, id: i64)
    requires
        v.wf(),
        has_id(v.rows, id),
        !v.row(id).clip.pinned,
    ensures
        v.apply(ChangeView::Pin { id, pinned: true }).apply(
            ChangeView::Pin { id, pinned: false },
        ) == v,
{
    let i = id_index(v.rows, id);
    assert(v.rows[i].clip.id == id);
    let mid = v.apply(ChangeView::Pin { id, pinned: true });
    crate::model::lemma_pin_wf(v, id, true);
    lemma_id_index(mid.rows, mid.last_clip_id, i);
    let back = mid.apply(ChangeView::Pin { id, pinned: false });
    assert(back.rows == v.rows);
}

// ---- search ------------------------------------------------------------

/// Search hits are shown pinned first, then by relevance, then most recently
/// used first: no hit outranks one that stands before it.
pub proof fn law_ranking_is_sorted(v: StoreView, hits: Seq<(i64, i64)>, i: int, j: int)
    requires
        v.wf(),
        0 <= i < j < ranked(v.rows, hits).len(),
    ensures
        !ranks_before(v.rows, ranked(v.rows, hits)[j], ranked(v.rows, hits)[i]),
    decreases hits.len(),
{
    if hits.len() > 0 {
        let before = ranked(v.rows, hits.drop_last());
        assert forall|a: int, b: int| 0 <= a < b < before.len() implies !ranks_before(
            v.rows,
            #[trigger] before[b],
            #[trigger] before[a],
        ) by {
            law_ranking_is_sorted(v, hits.drop_last(), a, b);
        }
        let (id, level) = hits.last();
        if has_id(v.rows, id) {
            lemma_placed(v.rows, before, (id_index(v.rows, id), level as int));
        }
    }
}

pub proof fn lemma_placed(rows: Seq<RowView>, sorted: Seq<(int, int)>, hit: (int, int))
    requires
        forall|a: int, b: int|
            0 <= a < b < sorted.len() ==> !ranks_before(
                rows,
                #[trigger] sorted[b],
                #[trigger] sorted[a],
            ),
    ensures
        placed(rows, sorted, hit).len() == sorted.len() + 1,
        forall|a: int, b: int|
            0 <= a < b < placed(rows, sorted, hit).len() ==> !ranks_before(
                rows,
                #[trigger] placed(rows, sorted, hit)[b],
                #[trigger] placed(rows, sorted, hit)[a],
            ),
        forall|k: int|
            0 <= k < placed(rows, sorted, hit).len() ==> #[trigger] placed(rows, sorted, hit)[k]
                == hit || sorted.contains(placed(rows, sorted, hit)[k]),
        placed(rows, sorted, hit).contains(hit),
        forall|k: int|
            0 <= k < sorted.len() ==> placed(rows, sorted, hit).contains(#[trigger] sorted[k]),
    decreases sorted.len(),
{
    let res = placed(rows, sorted, hit);
    if sorted.len() > 0 && ranks_before(rows, hit, sorted.last()) {
        let head = sorted.drop_last();
        let last = sorted.last();
        assert forall|a: int, b: int| 0 <= a < b < head.len() implies !ranks_before(
            rows,
            #[trigger] head[b],
            #[trigger] head[a],
        ) by {
            assert(head[a] == sorted[a] && head[b] == sorted[b]);
        }
        lemma_placed(rows, head, hit);
        let inner = placed(rows, head, hit);
        assert(res == inner.push(last));
        assert forall|a: int, b: int| 0 <= a < b < res.len() implies !ranks_before(
            rows,
            #[trigger] res[b],
            #[trigger] res[a],
        ) by {
            if b < inner.len() {
                assert(res[a] == inner[a] && res[b] == inner[b]);
            } else {
                assert(res[a] == inner[a]);
                if inner[a] != hit {
                    assert(head.contains(inner[a]));
                    let k = head.index_of(inner[a]);
                    assert(sorted[k] == inner[a]);
                    assert(sorted[sorted.len() - 1] == last);
                }
            }
        }
        assert forall|k: int| 0 <= k < res.len() implies #[trigger] res[k] == hit
            || sorted.contains(res[k]) by {
            if k < inner.len() {
                assert(res[k] == inner[k]);
                if inner[k] != hit {
                    let h = head.index_of(inner[k]);
                    assert(sorted[h] == inner[k]);
                }
            } else {
                assert(sorted[sorted.len() - 1] == res[k]);
            }
        }
        let h = inner.index_of(hit);
        assert(res[h] == hit);
        assert forall|k: int| 0 <= k < sorted.len() implies res.contains(#[trigger] sorted[k]) by {
            if k < head.len() {
                assert(head[k] == sorted[k]);
                let m = inner.index_of(head[k]);
                assert(res[m] == sorted[k]);
            } else {
                assert(res[inner.len() as int] == sorted[k]);
            }
        }
    } else {
        assert(res == sorted.push(hit));
        assert forall|a: int, b: int| 0 <= a < b < res.len() implies !ranks_before(
            rows,
            #[trigger] res[b],
            #[trigger] res[a],
        ) by {
            if b < sorted.len() {
                assert(res[a] == sorted[a] && res[b] == sorted[b]);
            } else {
                assert(res[a] == sorted[a]);
                if a < sorted.len() - 1 {
                    assert(!ranks_before(rows, sorted[sorted.len() - 1], sorted[a]));
                }
            }
        }
        assert(res[sorted.len() as int] == hit);
        assert forall|k: int| 0 <= k < sorted.len() implies res.contains(#[trigger] sorted[k]) by {
            assert(res[k] == sorted[k]);
        }
    }
}

// ---- loading -----------------------------------------------------------

/// Rows that were in order when they were saved load as they were saved.
pub proof fn law_saved_rows_load_unchanged(rows: Seq<RowView>, last_id: i64)
    requires
        rows_wf(rows, last_id),
    ensures
        can_settle(rows),
        settled(rows) == rows,
{
    assert forall|i: int| 0 <= i < rows.len() implies #[trigger] settled_seq(rows, i)
        == rows[i].seq by {
        lemma_ascending_is_settled(rows, last_id, i);
    }
    assert(settled(rows) =~= rows);
}

proof fn lemma_ascending_is_settled(rows: Seq<RowView>, last_id: i64, i: int)
    requires
        rows_wf(rows, last_id),
        0 <= i < rows.len(),
    ensures
        settled_seq(rows, i) == rows[i].seq,
    decreases rows.len() - i,
{
    if i + 1 < rows.len() {
        lemma_ascending_is_settled(rows, last_id, i + 1);
        assert(rows[i].seq < rows[i + 1].seq);
    }
}

/// Rows whose sequence numbers are equal load all the same, in the order they
/// come in, as long as there are as many numbers below the smallest as there are
/// rows.
pub proof fn law_equal_numbers_load(rows: Seq<RowView>, last_id: i64, least: int)
    requires
        forall|i: int| 0 <= i < rows.len() ==> row_wf(#[trigger] rows[i], last_id),
        forall|i: int| 0 <= i < rows.len() ==> (#[trigger] rows[i]).seq >= least,
        forall|i: int, j: int|
            0 <= i < j < rows.len() ==> (#[trigger] rows[i]).clip.id != (#[trigger] rows[j]).clip.id
                && rows[i].clip.hash != rows[j].clip.hash,
        least - rows.len() >= i64::MIN,
    ensures
        can_settle(rows),
        rows_wf(settled(rows), last_id),
        forall|i: int|
            0 <= i < rows.len() ==> (#[trigger] settled(rows)[i]).clip == rows[i].clip
                && settled(rows)[i].bytes == rows[i].bytes,
{
    let loaded = settled(rows);
    assert forall|i: int| 0 <= i < rows.len() implies #[trigger] settled_seq(rows, i)
        >= i64::MIN by {
        lemma_settled_bounds(rows, least, i);
    }
    assert forall|i: int, j: int| 0 <= i < j < loaded.len() implies (#[trigger] loaded[i]).clip.id
        != (#[trigger] loaded[j]).clip.id && loaded[i].clip.hash != loaded[j].clip.hash
        && loaded[i].seq < loaded[j].seq by {
        lemma_settled_bounds(rows, least, i);
        lemma_settled_bounds(rows, least, j);
        lemma_settled_ascends(rows, i, j);
        assert(rows[i].clip.id != rows[j].clip.id);
    }
    assert forall|i: int| 0 <= i < loaded.len() implies row_wf(#[trigger] loaded[i], last_id) by {
        assert(row_wf(rows[i], last_id));
    }
}

proof fn lemma_settled_bounds(rows: Seq<RowView>, least: int, i: int)
    requires
        0 <= i < rows.len(),
        forall|k: int| 0 <= k < rows.len() ==> (#[trigger] rows[k]).seq >= least,
    ensures
        least - (rows.len() - 1 - i) <= settled_seq(rows, i) <= i64::MAX,
    decreases rows.len() - i,
{
    if i + 1 < rows.len() {
        lemma_settled_bounds(rows, least, i + 1);
    }
}

proof fn lemma_settled_ascends(rows: Seq<RowView>, i: int, j: int)
    requires
        0 <= i < j < rows.len(),
    ensures
        settled_seq(rows, i) < settled_seq(rows, j),
    decreases rows.len() - i,
{
    if i + 1 < j {
        lemma_settled_ascends(rows, i + 1, j);
    }
}

// ---- the journal -------------------------------------------------------

/// Replaying the noted changes leads from any earlier history to the present
/// one, over any number of operations.
pub proof fn law_changes_replay(before: Store, mid: Store, after: Store)
    requires
        journaled(before, mid),
        journaled(mid, after),
    ensures
        journaled(before, after),
{
    let n = before.changes().len() as int;
    let m = mid.changes().len() as int;
    let a = mid.changes().skip(n);
    let b = after.changes().skip(m);
    lemma_apply_all_join(before@, a, b);
    assert(after.changes().take(m) + b == after.changes());
    assert(after.changes().skip(n) == a + b);
    assert(after.changes().take(n) == mid.changes().take(n));
}

/// One noted change is a journal that replays, and so is none.
pub proof fn law_one_change_replays(before: Store, after: Store, change: ChangeView)
    ensures
        changed(before, after, change) ==> journaled(before, after),
        unchanged(before, after) ==> journaled(before, after),
{
    let n = before.changes().len() as int;
    assert(before.changes().take(n) == before.changes());
    if changed(before, after, change) {
        let more = after.changes().skip(n);
        assert(after.changes().take(n) == before.changes());
        assert(more == seq![change]);
        assert(more.drop_last() == Seq::<ChangeView>::empty());
        assert(before@.apply_all(more.drop_last()) == before@);
    }
    if unchanged(before, after) {
        assert(after.changes().skip(n) == Seq::<ChangeView>::empty());
    }
}

} // verus!
