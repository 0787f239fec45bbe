//! What is captured, and what retention takes away again.

use vstd::prelude::*;
use vstd::utf8::encode_utf8;
use crate::clip::{ClipKind, ClipView, NewClipView};
use crate::config::ConfigView;
use crate::laws::lemma_drop_oldest;
use crate::model::{
    age_cutoff, drop_oldest, is_protected, lemma_hash_index, lemma_id_index, survives_age,
    unprotected, Member, Offer, RowView, SkipReason, StoreView,
};
use crate::seqs::{
    lemma_filter_none, lemma_filter_same, lemma_source, lemma_source_ascends, source,
};
use crate::service::ingested;
use crate::text::is_white;

verus! {

// ---- what is refused ---------------------------------------------------

/// How many bytes a clip's text and payload take together.
pub open spec fn content_size(clip: NewClipView) -> nat {
    (match clip.text {
        Some(text) => encode_utf8(text).len(),
        None => 0,
    }) + (match clip.bytes {
        Some(bytes) => bytes.len(),
        None => 0,
    })
}

/// Whether a clip holds anything: a text with a character that is not whitespace,
/// or a payload.
pub open spec fn holds_something(clip: NewClipView) -> bool {
    ||| clip.text is Some && exists|i: int|
        0 <= i < clip.text->0.len() && !is_white(#[trigger] clip.text->0[i])
    ||| clip.bytes is Some && clip.bytes->0.len() > 0
}

/// Whether a clip may be stored: it is not concealed, holds something, is no image
/// where images are off, comes from no ignored source and is not too large.
pub open spec fn may_be_stored(clip: NewClipView, cfg: ConfigView) -> bool {
    &&& !clip.concealed
    &&& holds_something(clip)
    &&& clip.kind == ClipKind::Image ==> cfg.capture_images
    &&& !cfg.ignores(clip.source_app, clip.source_bundle_id)
    &&& content_size(clip) <= cfg.max_clip_bytes
}

/// A clip larger than the limit is never stored, whatever its kind: it is refused,
/// and the history stays as it is.
pub proof fn law_oversized_clips_are_refused(
    v: StoreView,
    clip: NewClipView,
    cfg: ConfigView,
    now: i64,
    later: i64,
)
    requires
        content_size(clip) > cfg.max_clip_bytes,
        content_size(clip) <= usize::MAX,
    ensures
        v.offer(clip, cfg, now) is Skip,
        ingested(v, clip, cfg, now, later) == v,
{
}

/// With images switched off no image is stored, whatever its size and source.
pub proof fn law_unwanted_images_are_refused(
    v: StoreView,
    clip: NewClipView,
    cfg: ConfigView,
    now: i64,
    later: i64,
)
    requires
        clip.kind == ClipKind::Image,
        !cfg.capture_images,
    ensures
        v.offer(clip, cfg, now) is Skip,
        ingested(v, clip, cfg, now, later) == v,
{
}

/// A clip is refused exactly where it may not be stored, so nothing that may be is
/// lost and nothing else gets in.
pub proof fn law_refused_exactly_where_barred(
    v: StoreView,
    clip: NewClipView,
    cfg: ConfigView,
    now: i64,
)
    requires
        content_size(clip) <= usize::MAX,
    ensures
        v.offer(clip, cfg, now) is Skip <==> !may_be_stored(clip, cfg),
{
    lemma_empty(clip);
}

proof fn lemma_empty(clip: NewClipView)
    ensures
        clip.is_empty() <==> !holds_something(clip),
{
    if let Some(text) = clip.text {
        if !crate::text::is_blank(text) {
            let i = choose|i: int| 0 <= i < text.len() && !is_white(#[trigger] text[i]);
            assert(!is_white(clip.text->0[i]));
        }
    }
}

/// The reason given is the first that applies, concealment before all others.
pub proof fn law_first_reason_is_given(v: StoreView, clip: NewClipView, cfg: ConfigView, now: i64)
    requires
        content_size(clip) <= usize::MAX,
    ensures
        ({
            let offer = v.offer(clip, cfg, now);
            let unwanted = clip.kind == ClipKind::Image && !cfg.capture_images;
            let ignored = cfg.ignores(clip.source_app, clip.source_bundle_id);
            let shown = !clip.concealed;
            let full = shown && holds_something(clip);
            &&& clip.concealed ==> offer == Offer::Skip(SkipReason::Concealed)
            &&& shown && !holds_something(clip) ==> offer == Offer::Skip(SkipReason::Empty)
            &&& full && unwanted ==> offer == Offer::Skip(SkipReason::ImagesDisabled)
            &&& full && !unwanted && ignored ==> offer == Offer::Skip(SkipReason::IgnoredSource)
            &&& full && !unwanted && !ignored && content_size(clip) > cfg.max_clip_bytes ==> offer
                == Offer::Skip(SkipReason::TooLarge)
        }),
{
    lemma_empty(clip);
}

// ---- what is stored ----------------------------------------------------

/// Whether the counters have room for one more use.
pub open spec fn has_room(v: StoreView) -> bool {
    v.rows.len() == 0 || v.rows.last().seq < i64::MAX
}

/// New content that may be stored is stored: the history grows by one row, the
/// most recent, and keeps all that it had.
pub proof fn law_new_content_is_stored(v: StoreView, clip: NewClipView, cfg: ConfigView, now: i64)
    requires
        v.wf(),
        may_be_stored(clip, cfg),
        content_size(clip) <= 1_000_000_000,
        forall|i: int| 0 <= i < v.rows.len() ==> (#[trigger] v.rows[i]).clip.hash != clip.digest(),
        v.last_clip_id < i64::MAX,
        has_room(v),
    ensures
        v.offer(clip, cfg, now) is Add,
        ({
            let after = v.apply(v.offer(clip, cfg, now)->Add_0);
            let row = after.rows.last();
            &&& after.rows.len() == v.rows.len() + 1
            &&& after.rows.drop_last() == v.rows
            &&& after.boards == v.boards
            &&& after.members == v.members
            &&& row.clip.id > v.last_clip_id
            &&& after.last_clip_id == row.clip.id
            &&& row.clip.byte_len == content_size(clip)
            &&& row.clip.hash == clip.digest()
            &&& row.clip.created_at == now
            &&& row.clip.last_used_at == now
            &&& forall|i: int| 0 <= i < v.rows.len() ==> (#[trigger] v.rows[i]).seq < row.seq
        }),
{
    lemma_empty(clip);
    let after = v.apply(v.offer(clip, cfg, now)->Add_0);
    assert(after.rows.drop_last() =~= v.rows);
    assert forall|i: int| 0 <= i < v.rows.len() implies (#[trigger] v.rows[i]).seq
        < after.rows.last().seq by {
        if i < v.rows.len() - 1 {
            assert(v.rows[i].seq < v.rows[v.rows.len() - 1].seq);
        }
    }
}

/// Known content is used again instead: its row counts one use more and becomes
/// the most recent, and every other row stays as it is and in order.
pub proof fn law_known_content_is_used_again(
    v: StoreView,
    clip: NewClipView,
    cfg: ConfigView,
    now: i64,
    k: int,
)
    requires
        v.wf(),
        may_be_stored(clip, cfg),
        content_size(clip) <= usize::MAX,
        0 <= k < v.rows.len(),
        v.rows[k].clip.hash == clip.digest(),
        v.rows[k].clip.use_count < i64::MAX,
        has_room(v),
    ensures
        v.offer(clip, cfg, now) is Bump,
        ({
            let after = v.apply(v.offer(clip, cfg, now)->Bump_0);
            let was = v.rows[k];
            let row = after.rows.last();
            &&& after.rows.len() == v.rows.len()
            &&& after.rows.drop_last() == v.rows.remove(k)
            &&& row.bytes == was.bytes
            &&& row.clip.use_count == was.clip.use_count + 1
            &&& row.clip.last_used_at == now
            &&& row.clip == (ClipView {
                use_count: row.clip.use_count,
                last_used_at: now,
                ..was.clip
            })
            &&& after.members == v.members
            &&& after.boards == v.boards
            &&& after.last_clip_id == v.last_clip_id
        }),
{
    lemma_empty(clip);
    lemma_hash_index(v.rows, v.last_clip_id, k);
    lemma_id_index(v.rows, v.last_clip_id, k);
    let after = v.apply(v.offer(clip, cfg, now)->Bump_0);
    assert(after.rows.drop_last() =~= v.rows.remove(k));
}

// ---- retention ---------------------------------------------------------

/// Neither pinned nor on any pinboard.
pub open spec fn loose(v: StoreView, row: RowView) -> bool {
    !row.clip.pinned && forall|m: int|
        0 <= m < v.members.len() ==> (#[trigger] v.members[m]).clip_id != row.clip.id
}

/// Not older than the retention time, where there is one.
pub open spec fn recent_enough(cfg: ConfigView, now: i64, row: RowView) -> bool {
    cfg.retention_days == 0 || row.clip.created_at >= now - cfg.retention_days * 86_400
}

/// How many loose rows that are not too old were used after the row at a place.
pub open spec fn rivals(v: StoreView, cfg: ConfigView, now: i64, i: int) -> nat {
    v.rows.skip(i + 1).filter(|r: RowView| loose(v, r) && recent_enough(cfg, now, r)).len()
}

/// A clip is loose exactly where nothing protects it.
pub proof fn law_pins_and_boards_protect(v: StoreView, row: RowView)
    ensures
        is_protected(v.members, row) <==> !loose(v, row),
{
    if crate::model::is_member(v.members, row.clip.id) {
        let m = choose|m: int|
            0 <= m < v.members.len() && (#[trigger] v.members[m]).clip_id == row.clip.id;
        assert(v.members[m].clip_id == row.clip.id);
    }
}

/// Pruning keeps exactly the clips that are pinned or on a pinboard and, of the
/// others that are not too old, as many of the most recently used as the cap
/// allows: a clip goes only where it is too old, or where that many were used after
/// it.
pub proof fn law_prune_takes_no_more_than_it_must(v: StoreView, cfg: ConfigView, now: i64, i: int)
    requires
        v.wf(),
        0 <= i < v.rows.len(),
    ensures
        v.pruned(cfg, now).rows.contains(v.rows[i]) <==> (!loose(v, v.rows[i]) || recent_enough(
            cfg,
            now,
            v.rows[i],
        ) && rivals(v, cfg, now, i) < cfg.max_items),
{
    let row = v.rows[i];
    let p = |r: RowView| survives_age(v.members, age_cutoff(cfg, now), r);
    let young = v.aged(cfg, now);
    let members = v.members;
    let before = v.rows.take(i).filter(p);
    let behind = v.rows.skip(i + 1).filter(p);
    let total = unprotected(young, members);
    let cap = cfg.max_items as nat;
    let count = if total > cap {
        (total - cap) as nat
    } else {
        0
    };
    law_pins_and_boards_protect(v, row);
    assert(v.rows =~= v.rows.take(i) + (seq![row] + v.rows.skip(i + 1)));
    Seq::filter_distributes_over_add(v.rows.take(i), seq![row] + v.rows.skip(i + 1), p);
    Seq::filter_distributes_over_add(seq![row], v.rows.skip(i + 1), p);
    lemma_filter_one(row, p);
    lemma_ascending(v, cfg, now);
    lemma_drop_oldest(young, count, members);
    if p(row) {
        assert(young =~= before + (seq![row] + behind));
        let k = before.len() as int;
        assert(young[k] == row);
        lemma_drop_oldest_at(young, count, members, k);
        assert(young.take(k) =~= before);
        // The rows beside this one, by protection.
        let free = |r: RowView| !is_protected(members, r);
        Seq::filter_distributes_over_add(before, seq![row] + behind, free);
        Seq::filter_distributes_over_add(seq![row], behind, free);
        lemma_filter_one(row, free);
        let wanted = |r: RowView| loose(v, r) && recent_enough(cfg, now, r);
        let later = v.rows.skip(i + 1);
        assert forall|x: int| 0 <= x < later.len() implies wanted(#[trigger] later[x]) == (p(
            later[x],
        ) && free(later[x])) by {
            law_pins_and_boards_protect(v, later[x]);
        }
        lemma_filter_twice(later, p, free, wanted);
        assert(unprotected(behind, members) == rivals(v, cfg, now, i));
    } else {
        if v.pruned(cfg, now).rows.contains(row) {
            assert(young.contains(row));
            let k = young.index_of(row);
            lemma_source(v.rows, p, k);
            assert(p(row));
        }
    }
}

/// Of the loose clips that are not too old, pruning leaves as many as there are, or
/// as many as the cap allows, whichever is less.
pub proof fn law_prune_leaves_what_the_cap_allows(v: StoreView, cfg: ConfigView, now: i64)
    ensures
        ({
            let held = v.rows.filter(|r: RowView| loose(v, r) && recent_enough(cfg, now, r)).len();
            let left = v.pruned(cfg, now).rows.filter(|r: RowView| loose(v, r)).len();
            left == if held <= cfg.max_items {
                held as int
            } else {
                cfg.max_items as int
            }
        }),
{
    let members = v.members;
    let p = |r: RowView| survives_age(members, age_cutoff(cfg, now), r);
    let free = |r: RowView| !is_protected(members, r);
    let wanted = |r: RowView| loose(v, r) && recent_enough(cfg, now, r);
    let bare = |r: RowView| loose(v, r);
    let young = v.aged(cfg, now);
    let total = unprotected(young, members);
    let cap = cfg.max_items as nat;
    lemma_drop_oldest(
        young,
        if total > cap {
            (total - cap) as nat
        } else {
            0
        },
        members,
    );
    assert forall|x: int| 0 <= x < v.rows.len() implies wanted(#[trigger] v.rows[x]) == (p(
        v.rows[x],
    ) && free(v.rows[x])) by {
        law_pins_and_boards_protect(v, v.rows[x]);
    }
    lemma_filter_twice(v.rows, p, free, wanted);
    let rows = v.pruned(cfg, now).rows;
    assert forall|x: int| 0 <= x < rows.len() implies free(#[trigger] rows[x]) == bare(rows[x]) by {
        law_pins_and_boards_protect(v, rows[x]);
    }
    lemma_filter_same(rows, free, bare);
}

/// Pruning changes no clip that it leaves, nor their order, nor any pinboard.
pub proof fn law_prune_keeps_the_order(v: StoreView, cfg: ConfigView, now: i64, i: int, j: int)
    requires
        v.wf(),
        0 <= i < j < v.pruned(cfg, now).rows.len(),
    ensures
        v.rows.contains(v.pruned(cfg, now).rows[i]),
        v.rows.contains(v.pruned(cfg, now).rows[j]),
        v.pruned(cfg, now).rows[i].seq < v.pruned(cfg, now).rows[j].seq,
        v.pruned(cfg, now).members == v.members,
        v.pruned(cfg, now).boards == v.boards,
        v.pruned(cfg, now).last_clip_id == v.last_clip_id,
        v.pruned(cfg, now).last_board_id == v.last_board_id,
{
    let young = v.aged(cfg, now);
    let members = v.members;
    let total = unprotected(young, members);
    let cap = cfg.max_items as nat;
    let count = if total > cap {
        (total - cap) as nat
    } else {
        0
    };
    let rows = v.pruned(cfg, now).rows;
    lemma_ascending(v, cfg, now);
    lemma_drop_oldest_ascends(young, count, members);
    assert(rows.contains(rows[i]) && rows.contains(rows[j]));
    crate::laws::law_prune_spares_protected(v, cfg, now, rows[i]);
    crate::laws::law_prune_spares_protected(v, cfg, now, rows[j]);
}

proof fn lemma_filter_one(row: RowView, p: spec_fn(RowView) -> bool)
    ensures
        seq![row].filter(p) == if p(row) {
            seq![row]
        } else {
            Seq::empty()
        },
{
    reveal(Seq::filter);
    assert(seq![row].drop_last() =~= Seq::<RowView>::empty());
    assert(seq![row].last() == row);
    assert(Seq::<RowView>::empty().filter(p) =~= Seq::<RowView>::empty());
    assert(Seq::<RowView>::empty().push(row) =~= seq![row]);
}

/// Two filters, one after the other, leave what passes both.
proof fn lemma_filter_twice(
    s: Seq<RowView>,
    p: spec_fn(RowView) -> bool,
    q: spec_fn(RowView) -> bool,
    both: spec_fn(RowView) -> bool,
)
    requires
        forall|i: int| 0 <= i < s.len() ==> both(#[trigger] s[i]) == (p(s[i]) && q(s[i])),
    ensures
        s.filter(p).filter(q) == s.filter(both),
    decreases s.len(),
{
    reveal(Seq::filter);
    if s.len() > 0 {
        let head = s.drop_last();
        assert forall|i: int| 0 <= i < head.len() implies both(#[trigger] head[i]) == (p(head[i])
            && q(head[i])) by {
            assert(head[i] == s[i]);
        }
        lemma_filter_twice(head, p, q, both);
        assert(both(s[s.len() - 1]) == (p(s[s.len() - 1]) && q(s[s.len() - 1])));
        if p(s.last()) {
            assert(head.filter(p).push(s.last()).drop_last() =~= head.filter(p));
        }
    } else {
        assert(s.filter(p) =~= Seq::<RowView>::empty());
        assert(s.filter(p).filter(q) =~= Seq::<RowView>::empty());
        assert(s.filter(both) =~= Seq::<RowView>::empty());
    }
}

proof fn lemma_ascending(v: StoreView, cfg: ConfigView, now: i64)
    requires
        v.wf(),
    ensures
        forall|i: int, j: int|
            0 <= i < j < v.aged(cfg, now).len() ==> (#[trigger] v.aged(cfg, now)[i]).seq < (
            #[trigger] v.aged(cfg, now)[j]).seq,
{
    let p = |r: RowView| survives_age(v.members, age_cutoff(cfg, now), r);
    let young = v.aged(cfg, now);
    assert forall|i: int, j: int| 0 <= i < j < young.len() implies (#[trigger] young[i]).seq < (
    #[trigger] young[j]).seq by {
        lemma_source(v.rows, p, i);
        lemma_source(v.rows, p, j);
        lemma_source_ascends(v.rows, p, i, j);
        assert(v.rows[source(v.rows, p, i)].seq < v.rows[source(v.rows, p, j)].seq);
    }
}

proof fn lemma_front(rows: Seq<RowView>, members: Seq<Member>, i: int)
    requires
        0 < i <= rows.len(),
    ensures
        unprotected(rows.take(i), members) == unprotected(rows.drop_first().take(i - 1), members)
            + (if is_protected(members, rows[0]) {
            0nat
        } else {
            1
        }),
{
    let free = |r: RowView| !is_protected(members, r);
    assert(rows.take(i) =~= seq![rows[0]] + rows.drop_first().take(i - 1));
    Seq::filter_distributes_over_add(seq![rows[0]], rows.drop_first().take(i - 1), free);
    lemma_filter_one(rows[0], free);
}

/// A row stays where it is protected or as many unprotected rows as go stand
/// before it.
proof fn lemma_drop_oldest_at(rows: Seq<RowView>, count: nat, members: Seq<Member>, i: int)
    requires
        0 <= i < rows.len(),
        count <= unprotected(rows, members),
        forall|a: int, b: int|
            0 <= a < b < rows.len() ==> (#[trigger] rows[a]).seq < (#[trigger] rows[b]).seq,
    ensures
        drop_oldest(rows, count, members).contains(rows[i]) <==> (is_protected(members, rows[i])
            || unprotected(rows.take(i), members) >= count),
    decreases rows.len(),
{
    let res = drop_oldest(rows, count, members);
    lemma_drop_oldest(rows, count, members);
    if count == 0 {
        assert(res.contains(rows[i]));
    } else {
        let rest = rows.drop_first();
        let guarded = is_protected(members, rows[0]);
        let left: nat = if guarded {
            count
        } else {
            (count - 1) as nat
        };
        assert(rows.take(rows.len() as int) =~= rows);
        assert(rest.take(rest.len() as int) =~= rest);
        lemma_front(rows, members, rows.len() as int);
        let tail = drop_oldest(rest, left, members);
        lemma_drop_oldest(rest, left, members);
        assert forall|a: int, b: int| 0 <= a < b < rest.len() implies (#[trigger] rest[a]).seq < (
        #[trigger] rest[b]).seq by {
            assert(rows[a + 1].seq < rows[b + 1].seq);
        }
        if i == 0 {
            assert(rows.take(0) =~= Seq::<RowView>::empty());
            lemma_filter_none(rows.take(0), |r: RowView| !is_protected(members, r));
            if guarded {
                assert(res[0] == rows[0]);
            } else if res.contains(rows[0]) {
                assert(rest.contains(rows[0]));
                let k = rest.index_of(rows[0]);
                assert(rows[0].seq < rows[k + 1].seq);
            }
        } else {
            assert(rest[i - 1] == rows[i]);
            lemma_drop_oldest_at(rest, left, members, i - 1);
            lemma_front(rows, members, i);
            if guarded {
                assert(res == seq![rows[0]] + tail);
                if res.contains(rows[i]) {
                    let k = res.index_of(rows[i]);
                    assert(rows[0].seq < rows[i].seq);
                    assert(tail[k - 1] == rows[i]);
                }
                if tail.contains(rows[i]) {
                    let k = tail.index_of(rows[i]);
                    assert(res[k + 1] == rows[i]);
                }
            }
        }
    }
}

proof fn lemma_drop_oldest_ascends(rows: Seq<RowView>, count: nat, members: Seq<Member>)
    requires
        count <= unprotected(rows, members),
        forall|a: int, b: int|
            0 <= a < b < rows.len() ==> (#[trigger] rows[a]).seq < (#[trigger] rows[b]).seq,
    ensures
        forall|a: int, b: int|
            0 <= a < b < drop_oldest(rows, count, members).len() ==> (#[trigger] drop_oldest(
                rows,
                count,
                members,
            )[a]).seq < (#[trigger] drop_oldest(rows, count, members)[b]).seq,
    decreases rows.len(),
{
    if count > 0 && rows.len() > 0 {
        let rest = rows.drop_first();
        let guarded = is_protected(members, rows[0]);
        let left: nat = if guarded {
            count
        } else {
            (count - 1) as nat
        };
        assert(rows.take(rows.len() as int) =~= rows);
        assert(rest.take(rest.len() as int) =~= rest);
        lemma_front(rows, members, rows.len() as int);
        assert forall|a: int, b: int| 0 <= a < b < rest.len() implies (#[trigger] rest[a]).seq < (
        #[trigger] rest[b]).seq by {
            assert(rows[a + 1].seq < rows[b + 1].seq);
        }
        lemma_drop_oldest_ascends(rest, left, members);
        lemma_drop_oldest(rest, left, members);
        let tail = drop_oldest(rest, left, members);
        let res = drop_oldest(rows, count, members);
        if guarded {
            assert(res == seq![rows[0]] + tail);
            assert forall|a: int, b: int| 0 <= a < b < res.len() implies (#[trigger] res[a]).seq < (
            #[trigger] res[b]).seq by {
                assert(res[b] == tail[b - 1]);
                if a == 0 {
                    assert(tail.contains(tail[b - 1]));
                    let k = rest.index_of(tail[b - 1]);
                    assert(rows[0].seq < rows[k + 1].seq);
                } else {
                    assert(res[a] == tail[a - 1]);
                }
            }
        }
    }
}

} // verus!
