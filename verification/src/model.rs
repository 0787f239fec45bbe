//! The mathematical model of the history: rows in order of use, pinboards and
//! their members, and what each operation does to them.

use vstd::prelude::*;
use crate::clip::{ClipKind, ClipView, NewClipView};
use crate::config::ConfigView;
use crate::search::{text_fits, MAX_TEXT_BYTES};
use crate::seqs::{lemma_filter_has, lemma_source, lemma_source_ascends, source};

verus! {

/// Why a clip was deliberately not stored.
#[derive(Debug, Clone, Copy, PartialEq, Eq, Structural)]
pub enum SkipReason {
    Empty,
    /// The OS marked the item concealed or transient (password fields).
    Concealed,
    /// Source app is on the ignore list.
    IgnoredSource,
    TooLarge,
    ImagesDisabled,
}

/// A clip's place on a pinboard.
#[derive(Debug, Clone, Copy, PartialEq, Eq, Structural)]
pub struct Member {
    pub board_id: i64,
    pub clip_id: i64,
    pub position: i64,
}

/// A stored clip with its payload and its place in the order of use.
pub struct RowView {
    pub clip: ClipView,
    pub bytes: Option<Seq<u8>>,
    pub seq: i64,
}

/// A pinboard as it is stored.
pub struct BoardView {
    pub id: i64,
    pub name: Seq<char>,
    pub position: i64,
    pub created_at: i64,
}

/// The contents of the history. Rows stand in order of use, the most recently
/// used last; boards in order of position; the members of one board in order of
/// position.
#[verifier::ext_equal]
pub struct StoreView {
    pub rows: Seq<RowView>,
    pub boards: Seq<BoardView>,
    pub members: Seq<Member>,
    /// The largest id that a clip ever had.
    pub last_clip_id: i64,
    /// The largest id that a pinboard ever had.
    pub last_board_id: i64,
}

/// One change to the stored tables.
pub enum ChangeView {
    /// A clip was added.
    Add(RowView),
    /// A clip was used again and is now the most recent.
    Use { id: i64, last_used_at: i64, use_count: i64, seq: i64 },
    /// A clip was pinned or unpinned.
    Pin { id: i64, pinned: bool },
    /// A clip and its pinboard memberships are gone.
    Drop(i64),
    /// A pinboard was added.
    AddBoard(BoardView),
    /// A pinboard and its memberships are gone.
    DropBoard(i64),
    /// A clip was put on a pinboard.
    AddMember(Member),
    /// A clip was taken off a pinboard.
    DropMember { board_id: i64, clip_id: i64 },
}

/// What the store does with a clip it is offered.
pub enum Offer {
    /// Not stored.
    Skip(SkipReason),
    /// A counter has run out.
    Full,
    /// More than SQLite takes.
    TooBig,
    /// Known content: the existing row is used again.
    Bump(ChangeView),
    /// New content: a row is added.
    Add(ChangeView),
}

// ---- rows --------------------------------------------------------------

/// Whether some row has this id.
pub open spec fn has_id(rows: Seq<RowView>, id: i64) -> bool {
    exists|i: int| 0 <= i < rows.len() && (#[trigger] rows[i]).clip.id == id
}

/// The position of the row with this id.
pub open spec fn id_index(rows: Seq<RowView>, id: i64) -> int {
    choose|i: int| 0 <= i < rows.len() && (#[trigger] rows[i]).clip.id == id
}

/// Whether some row has this content digest.
pub open spec fn has_hash(rows: Seq<RowView>, hash: Seq<char>) -> bool {
    exists|i: int| 0 <= i < rows.len() && (#[trigger] rows[i]).clip.hash == hash
}

/// The position of the row with this content digest.
pub open spec fn hash_index(rows: Seq<RowView>, hash: Seq<char>) -> int {
    choose|i: int| 0 <= i < rows.len() && (#[trigger] rows[i]).clip.hash == hash
}

/// The sequence number that the next use gets.
pub open spec fn next_seq(rows: Seq<RowView>) -> int {
    if rows.len() == 0 {
        1
    } else {
        rows.last().seq + 1
    }
}

/// Whether a row's id is not beyond the last one given out, its payload is kept
/// apart from the clip, and its text is one that SQLite takes.
pub open spec fn row_wf(row: RowView, last_id: i64) -> bool {
    &&& row.clip.id <= last_id
    &&& row.clip.bytes is None
    &&& row.clip.text matches Some(text) ==> text_fits(text)
}

/// Ids and digests are unique, sequence numbers ascend, and each row is well
/// formed.
pub open spec fn rows_wf(rows: Seq<RowView>, last_id: i64) -> bool {
    &&& forall|i: int, j: int|
        0 <= i < j < rows.len() ==> (#[trigger] rows[i]).clip.id != (#[trigger] rows[j]).clip.id
            && rows[i].clip.hash != rows[j].clip.hash && rows[i].seq < rows[j].seq
    &&& forall|i: int| 0 <= i < rows.len() ==> row_wf(#[trigger] rows[i], last_id)
}

/// The sequence number of row `i` once each row has one less than the next has.
/// The last keeps its own, and so does every row that is less already.
pub open spec fn settled_seq(rows: Seq<RowView>, i: int) -> int
    decreases rows.len() - i,
{
    if i >= rows.len() - 1 {
        rows[i].seq as int
    } else {
        let next = settled_seq(rows, i + 1);
        if rows[i].seq < next {
            rows[i].seq as int
        } else {
            next - 1
        }
    }
}

/// Whether there is room for sequence numbers that ascend.
pub open spec fn can_settle(rows: Seq<RowView>) -> bool {
    forall|i: int| 0 <= i < rows.len() ==> #[trigger] settled_seq(rows, i) >= i64::MIN
}

/// Rows with sequence numbers that ascend in the order the rows stand in.
pub open spec fn settled(rows: Seq<RowView>) -> Seq<RowView> {
    Seq::new(rows.len(), |i: int| RowView { seq: settled_seq(rows, i) as i64, ..rows[i] })
}

/// Ids and names are unique, positions do not descend, and ids do not exceed the
/// last one given out.
pub open spec fn boards_wf(boards: Seq<BoardView>, last_id: i64) -> bool {
    &&& forall|i: int, j: int|
        0 <= i < j < boards.len() ==> (#[trigger] boards[i]).id != (#[trigger] boards[j]).id
            && boards[i].name != boards[j].name && boards[i].position <= boards[j].position
    &&& forall|i: int| 0 <= i < boards.len() ==> (#[trigger] boards[i]).id <= last_id
}

/// Whether some board has this id.
pub open spec fn has_board(boards: Seq<BoardView>, id: i64) -> bool {
    exists|i: int| 0 <= i < boards.len() && (#[trigger] boards[i]).id == id
}

/// The position of the board with this id.
pub open spec fn board_index(boards: Seq<BoardView>, id: i64) -> int {
    choose|i: int| 0 <= i < boards.len() && (#[trigger] boards[i]).id == id
}

/// Whether some board has this name.
pub open spec fn has_name(boards: Seq<BoardView>, name: Seq<char>) -> bool {
    exists|i: int| 0 <= i < boards.len() && (#[trigger] boards[i]).name == name
}

/// The position of the board with this name.
pub open spec fn name_index(boards: Seq<BoardView>, name: Seq<char>) -> int {
    choose|i: int| 0 <= i < boards.len() && (#[trigger] boards[i]).name == name
}

/// Whether a clip is on a board.
pub open spec fn has_member(members: Seq<Member>, board_id: i64, clip_id: i64) -> bool {
    exists|i: int|
        0 <= i < members.len() && (#[trigger] members[i]).board_id == board_id
            && members[i].clip_id == clip_id
}

/// Whether a clip is on any board.
pub open spec fn is_member(members: Seq<Member>, clip_id: i64) -> bool {
    exists|i: int| 0 <= i < members.len() && (#[trigger] members[i]).clip_id == clip_id
}

/// Members name existing boards and clips, no clip is on a board twice, and
/// positions do not descend within a board.
pub open spec fn members_wf(
    members: Seq<Member>,
    boards: Seq<BoardView>,
    rows: Seq<RowView>,
) -> bool {
    &&& forall|i: int|
        0 <= i < members.len() ==> has_board(boards, (#[trigger] members[i]).board_id) && has_id(
            rows,
            members[i].clip_id,
        )
    &&& forall|i: int, j: int|
        0 <= i < j < members.len() && (#[trigger] members[i]).board_id == (
        #[trigger] members[j]).board_id ==> members[i].clip_id != members[j].clip_id
            && members[i].position <= members[j].position
}

/// The members of one board, in order of position.
pub open spec fn on_board(members: Seq<Member>, board_id: i64) -> Seq<Member> {
    members.filter(|m: Member| m.board_id == board_id)
}

/// The position that the next member of a board gets.
pub open spec fn next_member_position(members: Seq<Member>, board_id: i64) -> int {
    let mine = on_board(members, board_id);
    if mine.len() == 0 {
        0
    } else {
        mine.last().position + 1
    }
}

/// The position that the next board gets.
pub open spec fn next_board_position(boards: Seq<BoardView>) -> int {
    if boards.len() == 0 {
        0
    } else {
        boards.last().position + 1
    }
}

// ---- policy ------------------------------------------------------------

/// The size recorded for a clip.
pub open spec fn recorded_len(clip: NewClipView) -> usize {
    if clip.byte_len() <= usize::MAX {
        clip.byte_len() as usize
    } else {
        usize::MAX
    }
}

/// Why a clip must not be stored, if it must not. Concealment is checked first:
/// a concealed clip carries no payload, and the reason it was skipped should be
/// "concealed", not "empty".
pub open spec fn refusal(clip: NewClipView, cfg: ConfigView) -> Option<SkipReason> {
    if clip.concealed {
        Some(SkipReason::Concealed)
    } else if clip.is_empty() {
        Some(SkipReason::Empty)
    } else if !cfg.capture_images && clip.kind == ClipKind::Image {
        Some(SkipReason::ImagesDisabled)
    } else if cfg.ignores(clip.source_app, clip.source_bundle_id) {
        Some(SkipReason::IgnoredSource)
    } else if recorded_len(clip) > cfg.max_clip_bytes {
        Some(SkipReason::TooLarge)
    } else {
        None
    }
}

/// Pinned, or on a pinboard.
pub open spec fn is_protected(members: Seq<Member>, row: RowView) -> bool {
    row.clip.pinned || is_member(members, row.clip.id)
}

/// `rows` without its first `count` unprotected ones.
pub open spec fn drop_oldest(rows: Seq<RowView>, count: nat, members: Seq<Member>) -> Seq<RowView>
    decreases rows.len(),
{
    if count == 0 || rows.len() == 0 {
        rows
    } else if is_protected(members, rows[0]) {
        seq![rows[0]] + drop_oldest(rows.drop_first(), count, members)
    } else {
        drop_oldest(rows.drop_first(), (count - 1) as nat, members)
    }
}

/// How many rows are unprotected.
pub open spec fn unprotected(rows: Seq<RowView>, members: Seq<Member>) -> nat {
    rows.filter(|r: RowView| !is_protected(members, r)).len()
}

/// The earliest creation time that age pruning lets stand, where it is on.
pub open spec fn age_cutoff(cfg: ConfigView, now: i64) -> Option<int> {
    if cfg.retention_days > 0 {
        Some(now - cfg.retention_days * 86_400)
    } else {
        None
    }
}

/// Protected, or young enough.
pub open spec fn survives_age(members: Seq<Member>, cutoff: Option<int>, row: RowView) -> bool {
    is_protected(members, row) || match cutoff {
        Some(c) => row.clip.created_at >= c,
        None => true,
    }
}

// ---- operations --------------------------------------------------------

impl StoreView {
    /// A history that holds nothing.
    pub open spec fn empty() -> StoreView {
        StoreView {
            rows: Seq::empty(),
            boards: Seq::empty(),
            members: Seq::empty(),
            last_clip_id: 0,
            last_board_id: 0,
        }
    }

    /// The invariant that every operation keeps.
    pub open spec fn wf(self) -> bool {
        &&& rows_wf(self.rows, self.last_clip_id)
        &&& boards_wf(self.boards, self.last_board_id)
        &&& members_wf(self.members, self.boards, self.rows)
    }

    /// The row with this id.
    pub open spec fn row(self, id: i64) -> RowView {
        self.rows[id_index(self.rows, id)]
    }

    /// The history after one change.
    pub open spec fn apply(self, change: ChangeView) -> StoreView {
        match change {
            ChangeView::Add(row) => StoreView {
                rows: self.rows.push(row),
                last_clip_id: row.clip.id,
                ..self
            },
            ChangeView::Use { id, last_used_at, use_count, seq } => {
                let i = id_index(self.rows, id);
                let row = self.rows[i];
                let used = RowView {
                    clip: ClipView { last_used_at, use_count, ..row.clip },
                    seq,
                    ..row
                };
                StoreView { rows: self.rows.remove(i).push(used), ..self }
            },
            ChangeView::Pin { id, pinned } => {
                let i = id_index(self.rows, id);
                let row = self.rows[i];
                StoreView {
                    rows: self.rows.update(
                        i,
                        RowView { clip: ClipView { pinned, ..row.clip }, ..row },
                    ),
                    ..self
                }
            },
            ChangeView::Drop(id) => StoreView {
                rows: self.rows.remove(id_index(self.rows, id)),
                members: self.members.filter(|m: Member| m.clip_id != id),
                ..self
            },
            ChangeView::AddBoard(board) => StoreView {
                boards: self.boards.push(board),
                last_board_id: board.id,
                ..self
            },
            ChangeView::DropBoard(id) => StoreView {
                boards: self.boards.remove(board_index(self.boards, id)),
                members: self.members.filter(|m: Member| m.board_id != id),
                ..self
            },
            ChangeView::AddMember(member) => StoreView { members: self.members.push(member), ..self },
            ChangeView::DropMember { board_id, clip_id } => StoreView {
                members: self.members.filter(
                    |m: Member| !(m.board_id == board_id && m.clip_id == clip_id),
                ),
                ..self
            },
        }
    }

    /// The history after a sequence of changes.
    pub open spec fn apply_all(self, changes: Seq<ChangeView>) -> StoreView
        decreases changes.len(),
    {
        if changes.len() == 0 {
            self
        } else {
            self.apply_all(changes.drop_last()).apply(changes.last())
        }
    }

    /// Using the clip with this id at a given time.
    pub open spec fn use_of(self, id: i64, now: i64) -> ChangeView {
        ChangeView::Use {
            id,
            last_used_at: now,
            use_count: (self.row(id).clip.use_count + 1) as i64,
            seq: next_seq(self.rows) as i64,
        }
    }

    /// Whether the counters have room for another use of this clip.
    pub open spec fn can_use(self, id: i64) -> bool {
        self.row(id).clip.use_count < i64::MAX && next_seq(self.rows) <= i64::MAX
    }

    /// The row a new clip becomes.
    pub open spec fn new_row(self, clip: NewClipView, now: i64) -> RowView {
        RowView {
            clip: ClipView {
                id: (self.last_clip_id + 1) as i64,
                kind: clip.kind,
                mime: clip.mime,
                text: clip.text,
                bytes: None,
                byte_len: recorded_len(clip) as i64,
                source_app: clip.source_app,
                source_bundle_id: clip.source_bundle_id,
                hash: clip.digest(),
                created_at: now,
                last_used_at: now,
                use_count: 1,
                pinned: false,
            },
            bytes: clip.bytes,
            seq: next_seq(self.rows) as i64,
        }
    }

    /// What becomes of an offered clip.
    pub open spec fn offer(self, clip: NewClipView, cfg: ConfigView, now: i64) -> Offer {
        match refusal(clip, cfg) {
            Some(reason) => Offer::Skip(reason),
            None => if has_hash(self.rows, clip.digest()) {
                let id = self.rows[hash_index(self.rows, clip.digest())].clip.id;
                if self.can_use(id) {
                    Offer::Bump(self.use_of(id, now))
                } else {
                    Offer::Full
                }
            } else if clip.byte_len() > MAX_TEXT_BYTES {
                Offer::TooBig
            } else if self.last_clip_id < i64::MAX && next_seq(self.rows) <= i64::MAX {
                Offer::Add(ChangeView::Add(self.new_row(clip, now)))
            } else {
                Offer::Full
            },
        }
    }

    /// The history without its unprotected rows, or without any row.
    pub open spec fn cleared(self, include_pinned: bool) -> StoreView {
        if include_pinned {
            StoreView { rows: Seq::empty(), members: Seq::empty(), ..self }
        } else {
            StoreView { rows: self.rows.filter(|r: RowView| is_protected(self.members, r)), ..self }
        }
    }

    /// The rows that age pruning leaves.
    pub open spec fn aged(self, cfg: ConfigView, now: i64) -> Seq<RowView> {
        self.rows.filter(|r: RowView| survives_age(self.members, age_cutoff(cfg, now), r))
    }

    /// The history after the retention policy: unprotected rows that are too old
    /// go, then the least recently used unprotected rows beyond the cap.
    pub open spec fn pruned(self, cfg: ConfigView, now: i64) -> StoreView {
        let young = self.aged(cfg, now);
        let count = unprotected(young, self.members);
        let cap = cfg.max_items as nat;
        StoreView {
            rows: drop_oldest(
                young,
                if count > cap {
                    (count - cap) as nat
                } else {
                    0
                },
                self.members,
            ),
            ..self
        }
    }

    /// The clips on a board, in order of position.
    pub open spec fn board_rows(self, board_id: i64) -> Seq<RowView> {
        on_board(self.members, board_id).map_values(|m: Member| self.row(m.clip_id))
    }

    /// The board that a name becomes.
    pub open spec fn new_board(self, name: Seq<char>, now: i64) -> BoardView {
        BoardView {
            id: (self.last_board_id + 1) as i64,
            name,
            position: next_board_position(self.boards) as i64,
            created_at: now,
        }
    }

    /// The board with this name.
    pub open spec fn board(self, name: Seq<char>) -> BoardView {
        self.boards[name_index(self.boards, name)]
    }
}

// ---- listings ----------------------------------------------------------

/// The rows that satisfy a condition, most recently used first, pinned ones
/// floated to the top.
pub open spec fn listing(rows: Seq<RowView>, keep: spec_fn(RowView) -> bool) -> Seq<RowView> {
    rows.filter(|r: RowView| keep(r) && r.clip.pinned).reverse() + rows.filter(
        |r: RowView| keep(r) && !r.clip.pinned,
    ).reverse()
}

/// One page of a list.
pub open spec fn page<A>(all: Seq<A>, limit: usize, offset: usize) -> Seq<A> {
    let from = if offset <= all.len() {
        offset as int
    } else {
        all.len() as int
    };
    let rest = all.skip(from);
    if limit <= rest.len() {
        rest.take(limit as int)
    } else {
        rest
    }
}

/// The clips of some rows.
pub open spec fn clips_of_rows(rows: Seq<RowView>) -> Seq<ClipView> {
    rows.map_values(|r: RowView| r.clip)
}

/// A search hit: a row position and how relevant it is, less being better.
pub open spec fn ranks_before(rows: Seq<RowView>, a: (int, int), b: (int, int)) -> bool {
    let x = rows[a.0];
    let y = rows[b.0];
    if x.clip.pinned != y.clip.pinned {
        x.clip.pinned
    } else if a.1 != b.1 {
        a.1 < b.1
    } else {
        x.seq > y.seq
    }
}

/// A hit put in its place: before the first hit it outranks.
pub open spec fn placed(rows: Seq<RowView>, sorted: Seq<(int, int)>, hit: (int, int)) -> Seq<
    (int, int),
>
    decreases sorted.len(),
{
    if sorted.len() > 0 && ranks_before(rows, hit, sorted.last()) {
        placed(rows, sorted.drop_last(), hit).push(sorted.last())
    } else {
        sorted.push(hit)
    }
}

/// Search hits in display order: pinned first, then by relevance, then most
/// recently used first. Hits without a row are left out.
pub open spec fn ranked(rows: Seq<RowView>, hits: Seq<(i64, i64)>) -> Seq<(int, int)>
    decreases hits.len(),
{
    if hits.len() == 0 {
        Seq::empty()
    } else {
        let before = ranked(rows, hits.drop_last());
        let (id, level) = hits.last();
        if has_id(rows, id) {
            placed(rows, before, (id_index(rows, id), level as int))
        } else {
            before
        }
    }
}

/// The rows of ranked hits.
pub open spec fn ranked_rows(rows: Seq<RowView>, hits: Seq<(i64, i64)>) -> Seq<RowView> {
    ranked(rows, hits).map_values(|h: (int, int)| rows[h.0])
}

// ---- statistics --------------------------------------------------------

/// The sum of the recorded sizes.
pub open spec fn total_size(rows: Seq<RowView>) -> int
    decreases rows.len(),
{
    if rows.len() == 0 {
        0
    } else {
        total_size(rows.drop_last()) + rows.last().clip.byte_len
    }
}

/// Whether summing the sizes row by row stays within the 64-bit range.
pub open spec fn sizes_fit(rows: Seq<RowView>) -> bool {
    forall|n: int|
        0 <= n <= rows.len() ==> i64::MIN <= #[trigger] total_size(rows.take(n)) <= i64::MAX
}

/// The earliest creation time, if there is any row.
pub open spec fn earliest(rows: Seq<RowView>) -> Option<i64>
    decreases rows.len(),
{
    if rows.len() == 0 {
        None
    } else {
        let c = rows.last().clip.created_at;
        match earliest(rows.drop_last()) {
            Some(e) => if e <= c {
                Some(e)
            } else {
                Some(c)
            },
            None => Some(c),
        }
    }
}

// ---- the invariant under each change -----------------------------------

/// Ids are unique, so an id has one position.
pub proof fn lemma_id_index(rows: Seq<RowView>, last_id: i64, i: int)
    requires
        rows_wf(rows, last_id),
        0 <= i < rows.len(),
    ensures
        has_id(rows, rows[i].clip.id),
        id_index(rows, rows[i].clip.id) == i,
{
    let k = id_index(rows, rows[i].clip.id);
    assert(rows[i].clip.id == rows[i].clip.id);
    assert(0 <= k < rows.len() && rows[k].clip.id == rows[i].clip.id);
    if k < i {
        assert(rows[k].clip.id != rows[i].clip.id);
    }
    if i < k {
        assert(rows[i].clip.id != rows[k].clip.id);
    }
}

/// Digests are unique, so a digest has one position.
pub proof fn lemma_hash_index(rows: Seq<RowView>, last_id: i64, i: int)
    requires
        rows_wf(rows, last_id),
        0 <= i < rows.len(),
    ensures
        has_hash(rows, rows[i].clip.hash),
        hash_index(rows, rows[i].clip.hash) == i,
{
    let k = hash_index(rows, rows[i].clip.hash);
    assert(0 <= k < rows.len() && rows[k].clip.hash == rows[i].clip.hash);
    if k < i {
        assert(rows[k].clip.hash != rows[i].clip.hash);
    }
    if i < k {
        assert(rows[i].clip.hash != rows[k].clip.hash);
    }
}

/// Board ids are unique, so an id has one position.
pub proof fn lemma_board_index(boards: Seq<BoardView>, last_id: i64, i: int)
    requires
        boards_wf(boards, last_id),
        0 <= i < boards.len(),
    ensures
        has_board(boards, boards[i].id),
        board_index(boards, boards[i].id) == i,
{
    let k = board_index(boards, boards[i].id);
    assert(0 <= k < boards.len() && boards[k].id == boards[i].id);
    if k < i {
        assert(boards[k].id != boards[i].id);
    }
    if i < k {
        assert(boards[i].id != boards[k].id);
    }
}

/// Board names are unique, so a name has one position.
pub proof fn lemma_name_index(boards: Seq<BoardView>, last_id: i64, i: int)
    requires
        boards_wf(boards, last_id),
        0 <= i < boards.len(),
    ensures
        has_name(boards, boards[i].name),
        name_index(boards, boards[i].name) == i,
{
    let k = name_index(boards, boards[i].name);
    assert(0 <= k < boards.len() && boards[k].name == boards[i].name);
    if k < i {
        assert(boards[k].name != boards[i].name);
    }
    if i < k {
        assert(boards[i].name != boards[k].name);
    }
}

/// Rows after one is removed: the others, in order.
pub proof fn lemma_removed_rows(rows: Seq<RowView>, last_id: i64, i: int)
    requires
        rows_wf(rows, last_id),
        0 <= i < rows.len(),
    ensures
        rows_wf(rows.remove(i), last_id),
        forall|id: i64|
            has_id(rows.remove(i), id) <==> has_id(rows, id) && id != rows[i].clip.id,
{
    let after = rows.remove(i);
    assert forall|k: int| 0 <= k < after.len() implies #[trigger] after[k] == rows[if k < i {
        k
    } else {
        k + 1
    }] by {}
    assert forall|id: i64|
        has_id(after, id) <==> has_id(rows, id) && id != rows[i].clip.id by {
        if has_id(after, id) {
            let k = choose|k: int| 0 <= k < after.len() && (#[trigger] after[k]).clip.id == id;
            let o = if k < i {
                k
            } else {
                k + 1
            };
            assert(rows[o].clip.id == id);
            if o < i {
                assert(rows[o].clip.id != rows[i].clip.id);
            } else {
                assert(rows[i].clip.id != rows[o].clip.id);
            }
        }
        if has_id(rows, id) && id != rows[i].clip.id {
            let o = choose|o: int| 0 <= o < rows.len() && (#[trigger] rows[o]).clip.id == id;
            let k = if o < i {
                o
            } else {
                o - 1
            };
            assert(after[k] == rows[o]);
        }
    }
}

/// Filtering members keeps what holds of each and of each pair in order.
pub proof fn lemma_filtered_members(
    members: Seq<Member>,
    boards: Seq<BoardView>,
    rows: Seq<RowView>,
    keep: spec_fn(Member) -> bool,
    new_boards: Seq<BoardView>,
    new_rows: Seq<RowView>,
)
    requires
        members_wf(members, boards, rows),
        forall|i: int|
            0 <= i < members.len() && keep(#[trigger] members[i]) ==> has_board(
                new_boards,
                members[i].board_id,
            ) && has_id(new_rows, members[i].clip_id),
    ensures
        members_wf(members.filter(keep), new_boards, new_rows),
{
    let after = members.filter(keep);
    assert forall|i: int| 0 <= i < after.len() implies has_board(
        new_boards,
        (#[trigger] after[i]).board_id,
    ) && has_id(new_rows, after[i].clip_id) by {
        lemma_source(members, keep, i);
        assert(keep(members[source(members, keep, i)]));
    }
    assert forall|i: int, j: int|
        0 <= i < j < after.len() && (#[trigger] after[i]).board_id == (
        #[trigger] after[j]).board_id implies after[i].clip_id != after[j].clip_id
        && after[i].position <= after[j].position by {
        lemma_source(members, keep, i);
        lemma_source(members, keep, j);
        lemma_source_ascends(members, keep, i, j);
        let a = source(members, keep, i);
        let b = source(members, keep, j);
        assert(members[a].board_id == members[b].board_id);
    }
}

/// Adding a row with a fresh id, digest and sequence number keeps the invariant.
pub proof fn lemma_add_wf(v: StoreView, row: RowView)
    requires
        v.wf(),
        row.clip.id > v.last_clip_id,
        !has_hash(v.rows, row.clip.hash),
        row_wf(row, row.clip.id),
        row.seq == next_seq(v.rows),
    ensures
        v.apply(ChangeView::Add(row)).wf(),
{
    let after = v.rows.push(row);
    assert forall|i: int, j: int| 0 <= i < j < after.len() implies (#[trigger] after[i]).clip.id
        != (#[trigger] after[j]).clip.id && after[i].clip.hash != after[j].clip.hash
        && after[i].seq < after[j].seq by {
        if j < v.rows.len() {
            assert(v.rows[i].clip.id != v.rows[j].clip.id);
        } else {
            assert(after[i] == v.rows[i]);
            assert(v.rows[i].clip.id <= v.last_clip_id);
            if i < v.rows.len() - 1 {
                assert(v.rows[i].seq < v.rows[v.rows.len() - 1].seq);
            }
        }
    }
    lemma_grown_rows(v.rows, row);
    assert(members_wf(v.members, v.boards, after));
}

/// Pushing a row keeps the ids that were there.
pub proof fn lemma_grown_rows(rows: Seq<RowView>, row: RowView)
    ensures
        forall|id: i64| has_id(rows.push(row), id) <==> has_id(rows, id) || id == row.clip.id,
{
    let after = rows.push(row);
    assert forall|id: i64| has_id(after, id) <==> has_id(rows, id) || id == row.clip.id by {
        if has_id(rows, id) {
            let k = choose|k: int| 0 <= k < rows.len() && (#[trigger] rows[k]).clip.id == id;
            assert(after[k].clip.id == id);
        }
        if id == row.clip.id {
            assert(after[rows.len() as int].clip.id == id);
        }
        if has_id(after, id) {
            let k = choose|k: int| 0 <= k < after.len() && (#[trigger] after[k]).clip.id == id;
            if k < rows.len() {
                assert(rows[k].clip.id == id);
            }
        }
    }
}

/// Using a clip keeps the invariant and makes it the most recent.
pub proof fn lemma_use_wf(v: StoreView, id: i64, now: i64)
    requires
        v.wf(),
        has_id(v.rows, id),
        v.can_use(id),
    ensures
        v.apply(v.use_of(id, now)).wf(),
        v.apply(v.use_of(id, now)).rows.last().clip.id == id,
        v.apply(v.use_of(id, now)).rows.len() == v.rows.len(),
{
    let i = id_index(v.rows, id);
    assert(0 <= i < v.rows.len() && v.rows[i].clip.id == id);
    let rest = v.rows.remove(i);
    lemma_removed_rows(v.rows, v.last_clip_id, i);
    let after = v.apply(v.use_of(id, now)).rows;
    let used = after.last();
    assert(after == rest.push(used));
    lemma_grown_rows(rest, used);
    assert forall|a: int, b: int| 0 <= a < b < after.len() implies (#[trigger] after[a]).clip.id
        != (#[trigger] after[b]).clip.id && after[a].clip.hash != after[b].clip.hash
        && after[a].seq < after[b].seq by {
        let oa = if a < i {
            a
        } else {
            a + 1
        };
        assert(after[a] == v.rows[oa]);
        if b < rest.len() {
            assert(after[a] == rest[a] && after[b] == rest[b]);
        } else {
            assert(after[b] == used);
            if oa < i {
                assert(v.rows[oa].clip.id != v.rows[i].clip.id);
                assert(v.rows[oa].clip.hash != v.rows[i].clip.hash);
            } else {
                assert(v.rows[i].clip.id != v.rows[oa].clip.id);
                assert(v.rows[i].clip.hash != v.rows[oa].clip.hash);
            }
            if oa < v.rows.len() - 1 {
                assert(v.rows[oa].seq < v.rows[v.rows.len() - 1].seq);
            }
        }
    }
    assert forall|a: int| 0 <= a < after.len() implies row_wf(
        #[trigger] after[a],
        v.last_clip_id,
    ) by {
        if a < rest.len() {
            assert(after[a] == rest[a]);
        } else {
            assert(row_wf(v.rows[i], v.last_clip_id));
        }
    }
}

/// Pinning keeps the invariant.
pub proof fn lemma_pin_wf(v: StoreView, id: i64, pinned: bool)
    requires
        v.wf(),
        has_id(v.rows, id),
    ensures
        v.apply(ChangeView::Pin { id, pinned }).wf(),
        v.apply(ChangeView::Pin { id, pinned }).row(id) == (RowView {
            clip: ClipView { pinned, ..v.row(id).clip },
            ..v.row(id)
        }),
{
    let i = id_index(v.rows, id);
    assert(0 <= i < v.rows.len() && v.rows[i].clip.id == id);
    let after = v.apply(ChangeView::Pin { id, pinned }).rows;
    assert forall|k: int| 0 <= k < after.len() implies (#[trigger] after[k]).clip.id
        == v.rows[k].clip.id && after[k].clip.hash == v.rows[k].clip.hash && after[k].seq
        == v.rows[k].seq && after[k].clip.bytes == v.rows[k].clip.bytes && after[k].clip.text
        == v.rows[k].clip.text by {}
    assert(rows_wf(after, v.last_clip_id)) by {
        assert forall|a: int, b: int| 0 <= a < b < after.len() implies (#[trigger] after[a]).clip.id
            != (#[trigger] after[b]).clip.id && after[a].clip.hash != after[b].clip.hash
            && after[a].seq < after[b].seq by {
            assert(v.rows[a].clip.id != v.rows[b].clip.id);
        }
        assert forall|a: int| 0 <= a < after.len() implies row_wf(
            #[trigger] after[a],
            v.last_clip_id,
        ) by {
            assert(row_wf(v.rows[a], v.last_clip_id));
        }
    }
    assert forall|x: i64| has_id(v.rows, x) implies has_id(after, x) by {
        let k = choose|k: int| 0 <= k < v.rows.len() && (#[trigger] v.rows[k]).clip.id == x;
        assert(after[k].clip.id == x);
    }
    lemma_id_index(after, v.last_clip_id, i);
}

/// Dropping a clip keeps the invariant.
pub proof fn lemma_drop_wf(v: StoreView, id: i64)
    requires
        v.wf(),
        has_id(v.rows, id),
    ensures
        v.apply(ChangeView::Drop(id)).wf(),
{
    let i = id_index(v.rows, id);
    assert(0 <= i < v.rows.len() && v.rows[i].clip.id == id);
    lemma_removed_rows(v.rows, v.last_clip_id, i);
    lemma_filtered_members(
        v.members,
        v.boards,
        v.rows,
        |m: Member| m.clip_id != id,
        v.boards,
        v.rows.remove(i),
    );
}

/// Adding a board with a fresh id, name and position keeps the invariant.
pub proof fn lemma_add_board_wf(v: StoreView, board: BoardView)
    requires
        v.wf(),
        board.id > v.last_board_id,
        !has_name(v.boards, board.name),
        board.position == next_board_position(v.boards),
    ensures
        v.apply(ChangeView::AddBoard(board)).wf(),
{
    let after = v.boards.push(board);
    assert forall|i: int, j: int| 0 <= i < j < after.len() implies (#[trigger] after[i]).id != (
    #[trigger] after[j]).id && after[i].name != after[j].name && after[i].position
        <= after[j].position by {
        if j < v.boards.len() {
            assert(v.boards[i].id != v.boards[j].id);
        } else {
            assert(after[i] == v.boards[i]);
            assert(v.boards[i].id <= v.last_board_id);
            if i < v.boards.len() - 1 {
                assert(v.boards[i].position <= v.boards[v.boards.len() - 1].position);
            }
        }
    }
    assert forall|id: i64| has_board(v.boards, id) implies has_board(after, id) by {
        let k = choose|k: int| 0 <= k < v.boards.len() && (#[trigger] v.boards[k]).id == id;
        assert(after[k].id == id);
    }
}

/// Dropping a board keeps the invariant.
pub proof fn lemma_drop_board_wf(v: StoreView, id: i64)
    requires
        v.wf(),
        has_board(v.boards, id),
    ensures
        v.apply(ChangeView::DropBoard(id)).wf(),
{
    let i = board_index(v.boards, id);
    assert(0 <= i < v.boards.len() && v.boards[i].id == id);
    let after = v.boards.remove(i);
    assert forall|k: int| 0 <= k < after.len() implies #[trigger] after[k] == v.boards[if k < i {
        k
    } else {
        k + 1
    }] by {}
    assert(boards_wf(after, v.last_board_id));
    assert forall|x: i64| has_board(v.boards, x) && x != id implies has_board(after, x) by {
        let o = choose|o: int| 0 <= o < v.boards.len() && (#[trigger] v.boards[o]).id == x;
        let k = if o < i {
            o
        } else {
            o - 1
        };
        assert(after[k] == v.boards[o]);
    }
    lemma_filtered_members(
        v.members,
        v.boards,
        v.rows,
        |m: Member| m.board_id != id,
        after,
        v.rows,
    );
}

/// Putting a clip on a board where it is not yet keeps the invariant.
pub proof fn lemma_add_member_wf(v: StoreView, member: Member)
    requires
        v.wf(),
        has_board(v.boards, member.board_id),
        has_id(v.rows, member.clip_id),
        !has_member(v.members, member.board_id, member.clip_id),
        member.position == next_member_position(v.members, member.board_id),
    ensures
        v.apply(ChangeView::AddMember(member)).wf(),
{
    let after = v.members.push(member);
    assert forall|i: int, j: int|
        0 <= i < j < after.len() && (#[trigger] after[i]).board_id == (
        #[trigger] after[j]).board_id implies after[i].clip_id != after[j].clip_id
        && after[i].position <= after[j].position by {
        if j < v.members.len() {
            assert(v.members[i].board_id == v.members[j].board_id);
        } else {
            assert(after[i] == v.members[i]);
            let p = |m: Member| m.board_id == member.board_id;
            let mine = on_board(v.members, member.board_id);
            let k = lemma_filter_has(v.members, p, i);
            let n = mine.len() - 1;
            lemma_source(v.members, p, n);
            lemma_source(v.members, p, k);
            if k < n {
                lemma_source_ascends(v.members, p, k, n);
                let a = source(v.members, p, k);
                let b = source(v.members, p, n);
                assert(v.members[a].board_id == v.members[b].board_id);
            }
        }
    }
}

/// Taking a clip off a board keeps the invariant.
pub proof fn lemma_drop_member_wf(v: StoreView, board_id: i64, clip_id: i64)
    requires
        v.wf(),
    ensures
        v.apply(ChangeView::DropMember { board_id, clip_id }).wf(),
{
    lemma_filtered_members(
        v.members,
        v.boards,
        v.rows,
        |m: Member| !(m.board_id == board_id && m.clip_id == clip_id),
        v.boards,
        v.rows,
    );
}

} // verus!
