//! The clipboard history.

use vstd::prelude::*;
use crate::clip::{clip_views, Clip, ClipKind, ClipView, NewClip, NewClipView};
use crate::config::{Config, ConfigView};
use crate::error::{Error, Result};
use crate::laws::law_changes_replay;
use crate::model::{
    clips_of_rows, drop_oldest, has_board, has_hash, has_id, has_member, has_name, hash_index,
    id_index, is_member, is_protected, lemma_add_board_wf, lemma_add_member_wf, lemma_add_wf,
    lemma_drop_board_wf, lemma_drop_member_wf, boards_wf, members_wf, rows_wf, lemma_grown_rows,
    lemma_removed_rows, earliest, next_board_position, next_member_position, on_board, sizes_fit,
    total_size, lemma_board_index, lemma_drop_wf, lemma_hash_index, lemma_id_index,
    lemma_name_index, lemma_pin_wf, lemma_use_wf, listing, name_index, next_seq, page, placed,
    ranked, ranked_rows, ranks_before, recorded_len, row_wf, settled, settled_seq, can_settle,
    survives_age, unprotected, age_cutoff, BoardView, ChangeView, Member, Offer, RowView, SkipReason, StoreView,
};
use crate::seqs::{
    lemma_filter_has, lemma_source, source, lemma_filter_all, lemma_filter_same, lemma_filter_step,
    lemma_reverse_push, lemma_sweep, lemma_sweep_ends,
};
use crate::search::{
    fts_expression, indexable, is_word_expression, law_pattern_is_literal,
    law_tokens_are_plain_words, legible, lemma_pattern_legible, like_pattern, like_pattern_for,
    match_expression, nul_free, pattern_fits, query_tokens, text_fits, tokenize,
    MAX_INDEXED_BYTES, MAX_TEXT_BYTES,
};
use crate::text::{chars_view, has_part, lowered, owned, same};
use crate::trusted::{
    create_index, eval_like, fts5_matches, has_default_limits, has_index, index_match, index_put,
    index_remove, indexed, keep_temp_in_memory, open_scratch, spills_nothing, sqlite_like, unix_now,
};
use crate::view::{copy_opt_bytes, copy_opt_text, opt_bytes, opt_text};

verus! {

/// What happened to a clip offered to the store.
#[derive(Debug)]
pub enum InsertOutcome {
    /// A new row was created.
    Stored(Clip),
    /// Identical content already existed; its recency was bumped instead.
    Deduped(Clip),
    /// Deliberately not stored.
    Skipped(SkipReason),
}

impl SkipReason {
    /// The reason in words.
    pub open spec fn text(self) -> Seq<char> {
        match self {
            SkipReason::Empty => "empty"@,
            SkipReason::Concealed => "concealed"@,
            SkipReason::IgnoredSource => "ignored source"@,
            SkipReason::TooLarge => "too large"@,
            SkipReason::ImagesDisabled => "image capture disabled"@,
        }
    }

    pub fn as_str(self) -> (res: &'static str)
        ensures
            res@ == self.text(),
    {
        match self {
            SkipReason::Empty => "empty",
            SkipReason::Concealed => "concealed",
            SkipReason::IgnoredSource => "ignored source",
            SkipReason::TooLarge => "too large",
            SkipReason::ImagesDisabled => "image capture disabled",
        }
    }
}

/// A stored clip with its payload and its place in the order of use.
#[derive(Debug)]
pub struct Row {
    pub clip: Clip,
    pub bytes: Option<Vec<u8>>,
    /// Monotonic use counter, bumped on insert and on every use. Ordering keys
    /// off this rather than off the time of last use: timestamps have one-second
    /// resolution, so two clips used within the same second would order
    /// arbitrarily. It is also immune to the system clock changing.
    pub seq: i64,
}

impl View for Row {
    type V = RowView;

    open spec fn view(&self) -> RowView {
        RowView { clip: self.clip@, bytes: opt_bytes(self.bytes), seq: self.seq }
    }
}

impl Clone for Row {
    fn clone(&self) -> (res: Self)
        ensures
            res@ == self@,
    {
        Row { clip: self.clip.clone(), bytes: copy_opt_bytes(&self.bytes), seq: self.seq }
    }
}

/// A pinboard as it is stored.
#[derive(Debug)]
pub struct BoardRow {
    pub id: i64,
    pub name: String,
    pub position: i64,
    pub created_at: i64,
}

impl View for BoardRow {
    type V = BoardView;

    open spec fn view(&self) -> BoardView {
        BoardView {
            id: self.id,
            name: self.name@,
            position: self.position,
            created_at: self.created_at,
        }
    }
}

impl Clone for BoardRow {
    fn clone(&self) -> (res: Self)
        ensures
            res@ == self@,
    {
        BoardRow {
            id: self.id,
            name: self.name.clone(),
            position: self.position,
            created_at: self.created_at,
        }
    }
}

/// One change to the stored tables, for whoever keeps them on disk.
#[derive(Debug)]
pub enum Change {
    /// A clip was added.
    Add(Row),
    /// A clip was used again and is now the most recent.
    Use { id: i64, last_used_at: i64, use_count: i64, seq: i64 },
    /// A clip was pinned or unpinned.
    Pin { id: i64, pinned: bool },
    /// A clip and its pinboard memberships are gone.
    Drop(i64),
    /// A pinboard was added.
    AddBoard(BoardRow),
    /// A pinboard and its memberships are gone.
    DropBoard(i64),
    /// A clip was put on a pinboard.
    AddMember(Member),
    /// A clip was taken off a pinboard.
    DropMember { board_id: i64, clip_id: i64 },
}

impl View for Change {
    type V = ChangeView;

    open spec fn view(&self) -> ChangeView {
        match self {
            Change::Add(row) => ChangeView::Add(row@),
            Change::Use { id, last_used_at, use_count, seq } => ChangeView::Use {
                id: *id,
                last_used_at: *last_used_at,
                use_count: *use_count,
                seq: *seq,
            },
            Change::Pin { id, pinned } => ChangeView::Pin { id: *id, pinned: *pinned },
            Change::Drop(id) => ChangeView::Drop(*id),
            Change::AddBoard(board) => ChangeView::AddBoard(board@),
            Change::DropBoard(id) => ChangeView::DropBoard(*id),
            Change::AddMember(member) => ChangeView::AddMember(*member),
            Change::DropMember { board_id, clip_id } => ChangeView::DropMember {
                board_id: *board_id,
                clip_id: *clip_id,
            },
        }
    }
}

/// The contents of some rows.
pub open spec fn row_views(rows: Seq<Row>) -> Seq<RowView> {
    rows.map_values(|r: Row| r@)
}

/// The contents of some boards.
pub open spec fn board_views(boards: Seq<BoardRow>) -> Seq<BoardView> {
    boards.map_values(|b: BoardRow| b@)
}

/// The contents of some changes.
pub open spec fn change_views(changes: Seq<Change>) -> Seq<ChangeView> {
    changes.map_values(|c: Change| c@)
}

/// The clipboard history.
///
/// Rows are kept in the order of use. Every change is also noted in a journal
/// that [`Store::take_changes`] hands out, so that the tables can be kept on
/// disk. Full-text search goes through a private SQLite connection; without FTS5
/// there, or where it reports an error, search falls back to `LIKE`.
///
/// Not internally synchronized; the daemon owns one and serializes access.
pub struct Store {
    clips: Vec<Row>,
    boards: Vec<BoardRow>,
    members: Vec<Member>,
    last_clip_id: i64,
    last_board_id: i64,
    conn: rusqlite::Connection,
    fts: bool,
    pending: Vec<Change>,
}

impl View for Store {
    type V = StoreView;

    closed spec fn view(&self) -> StoreView {
        StoreView {
            rows: row_views(self.clips@),
            boards: board_views(self.boards@),
            members: self.members@,
            last_clip_id: self.last_clip_id,
            last_board_id: self.last_board_id,
        }
    }
}

/// Whether an index holds exactly the texts of some rows.
pub open spec fn index_of(index: Map<i64, Option<Seq<char>>>, rows: Seq<RowView>) -> bool {
    &&& forall|id: i64| #[trigger] index.contains_key(id) <==> has_id(rows, id)
    &&& forall|i: int|
        0 <= i < rows.len() ==> index[(#[trigger] rows[i]).clip.id] == rows[i].clip.text
}

/// Whether the journal of `after` continues that of `before` with changes that
/// lead from the one history to the other.
pub open spec fn journaled(before: Store, after: Store) -> bool {
    &&& before.changes().len() <= after.changes().len()
    &&& after.changes().take(before.changes().len() as int) == before.changes()
    &&& before@.apply_all(after.changes().skip(before.changes().len() as int)) == after@
}

/// Whether `after` is `before` with one change, noted in the journal.
pub open spec fn changed(before: Store, after: Store, change: ChangeView) -> bool {
    &&& after@ == before@.apply(change)
    &&& after.changes() == before.changes().push(change)
}

/// Whether `after` holds and notes what `before` does.
pub open spec fn unchanged(before: Store, after: Store) -> bool {
    &&& after@ == before@
    &&& after.changes() == before.changes()
}

impl Store {
    /// The changes not yet handed out.
    pub closed spec fn changes(&self) -> Seq<ChangeView> {
        change_views(self.pending@)
    }

    /// Whether full-text search is at work.
    pub closed spec fn full_text(&self) -> bool {
        self.fts
    }

    /// Whether the full-text index, where it is at work, holds what the rows do,
    /// on a connection with the default limits that keeps everything in memory.
    pub closed spec fn in_sync(&self) -> bool {
        &&& has_default_limits(self.conn)
        &&& spills_nothing(self.conn)
        &&& self.fts ==> has_index(self.conn) && index_of(indexed(self.conn), self@.rows)
    }

    /// The invariant that every operation keeps.
    pub open spec fn wf(&self) -> bool {
        self@.wf() && self.in_sync()
    }

    /// Ephemeral store, used by tests and by `--private` sessions.
    pub fn open_in_memory() -> (res: Result<Self>)
        ensures
            match res {
                Ok(store) => store.wf() && store@ == StoreView::empty() && store.changes()
                    == Seq::<ChangeView>::empty(),
                Err(e) => e is Sqlite,
            },
    {
        let mut conn = match open_scratch() {
            Ok(conn) => conn,
            Err(reason) => {
                return Err(Error::Sqlite(reason));
            },
        };
        // Keep temp material in memory: spilling clipboard contents to disk outside
        // our own files would leak history.
        if let Err(reason) = keep_temp_in_memory(&mut conn) {
            return Err(Error::Sqlite(reason));
        }
        let created = create_index(&mut conn);
        Ok(Store::over(conn, created))
    }

    /// An empty store that searches through a connection just opened, with what
    /// came of creating the full-text table on it. Without the table, search falls
    /// back to `LIKE`.
    fn over(conn: rusqlite::Connection, created: std::result::Result<(), String>) -> (res: Self)
        requires
            indexed(conn).dom() == Set::<i64>::empty(),
            has_default_limits(conn),
            spills_nothing(conn),
            created is Ok ==> has_index(conn),
        ensures
            res.wf(),
            res@ == StoreView::empty(),
            res.changes() == Seq::<ChangeView>::empty(),
            res.full_text() == (created is Ok),
    {
        let store = Store {
            clips: Vec::new(),
            boards: Vec::new(),
            members: Vec::new(),
            last_clip_id: 0,
            last_board_id: 0,
            conn,
            fts: created.is_ok(),
            pending: Vec::new(),
        };
        assert(store@.rows == Seq::<RowView>::empty());
        assert(store@.boards == Seq::<BoardView>::empty());
        assert(store.changes() == Seq::<ChangeView>::empty());
        store
    }

    pub fn has_full_text_search(&self) -> (res: bool)
        ensures
            res == self.full_text(),
    {
        self.fts
    }

    /// Hands out the changes since the last call.
    pub fn take_changes(&mut self) -> (res: Vec<Change>)
        ensures
            change_views(res@) == old(self).changes(),
            final(self)@ == old(self)@,
            final(self).changes() == Seq::<ChangeView>::empty(),
            final(self).full_text() == old(self).full_text(),
            old(self).wf() ==> final(self).wf(),
    {
        let mut out: Vec<Change> = Vec::new();
        std::mem::swap(&mut out, &mut self.pending);
        assert(self.changes() == Seq::<ChangeView>::empty());
        out
    }

    // ---- finding ---------------------------------------------------------

    fn find(&self, id: i64) -> (res: Option<usize>)
        requires
            self@.wf(),
        ensures
            match res {
                Some(i) => i < self.clips@.len() && has_id(self@.rows, id) && id_index(
                    self@.rows,
                    id,
                ) == i && self@.rows[i as int].clip.id == id,
                None => !has_id(self@.rows, id),
            },
    {
        for i in 0..self.clips.len()
            invariant
                self@.wf(),
                forall|j: int| 0 <= j < i ==> (#[trigger] self@.rows[j]).clip.id != id,
        {
            assert(self@.rows[i as int] == self.clips@[i as int]@);
            if self.clips[i].clip.id == id {
                proof {
                    lemma_id_index(self@.rows, self@.last_clip_id, i as int);
                }
                return Some(i);
            }
        }
        None
    }

    fn find_by_hash(&self, hash: &String) -> (res: Option<usize>)
        requires
            self@.wf(),
        ensures
            match res {
                Some(i) => i < self.clips@.len() && has_hash(self@.rows, hash@) && hash_index(
                    self@.rows,
                    hash@,
                ) == i && self@.rows[i as int].clip.hash == hash@,
                None => !has_hash(self@.rows, hash@),
            },
    {
        for i in 0..self.clips.len()
            invariant
                self@.wf(),
                forall|j: int| 0 <= j < i ==> (#[trigger] self@.rows[j]).clip.hash != hash@,
        {
            assert(self@.rows[i as int] == self.clips@[i as int]@);
            if self.clips[i].clip.hash == *hash {
                proof {
                    lemma_hash_index(self@.rows, self@.last_clip_id, i as int);
                }
                return Some(i);
            }
        }
        None
    }

    fn find_board(&self, name: &str) -> (res: Option<usize>)
        requires
            self@.wf(),
        ensures
            match res {
                Some(i) => i < self.boards@.len() && has_name(self@.boards, name@) && name_index(
                    self@.boards,
                    name@,
                ) == i && self@.boards[i as int].name == name@,
                None => !has_name(self@.boards, name@),
            },
    {
        for i in 0..self.boards.len()
            invariant
                self@.wf(),
                forall|j: int| 0 <= j < i ==> (#[trigger] self@.boards[j]).name != name@,
        {
            assert(self@.boards[i as int] == self.boards@[i as int]@);
            if same(self.boards[i].name.as_str(), name) {
                proof {
                    lemma_name_index(self@.boards, self@.last_board_id, i as int);
                }
                return Some(i);
            }
        }
        None
    }

    // ---- writes ----------------------------------------------------------

    /// Offer a clip to the store, applying every policy in `cfg`.
    pub fn insert(&mut self, clip: &NewClip, cfg: &Config) -> (res: Result<InsertOutcome>)
        requires
            old(self).wf(),
        ensures
            final(self).wf(),
            final(self).full_text() ==> old(self).full_text(),
            keeps_index(clip@, cfg@) ==> final(self).full_text() == old(self).full_text(),
            exists|now: i64| inserted(*old(self), *final(self), old(self)@.offer(clip@, cfg@, now), res),
    {
        let now = unix_now();
        self.insert_at(clip, cfg, now)
    }

    /// Offer a clip to the store at a given time.
    pub fn insert_at(&mut self, clip: &NewClip, cfg: &Config, now: i64) -> (res: Result<
        InsertOutcome,
    >)
        requires
            old(self).wf(),
        ensures
            final(self).wf(),
            final(self).full_text() ==> old(self).full_text(),
            keeps_index(clip@, cfg@) ==> final(self).full_text() == old(self).full_text(),
            inserted(*old(self), *final(self), old(self)@.offer(clip@, cfg@, now), res),
    {
        if clip.concealed {
            return Ok(InsertOutcome::Skipped(SkipReason::Concealed));
        }
        if clip.is_empty() {
            return Ok(InsertOutcome::Skipped(SkipReason::Empty));
        }
        if !cfg.capture_images && clip.kind == ClipKind::Image {
            return Ok(InsertOutcome::Skipped(SkipReason::ImagesDisabled));
        }
        let app: Option<&str> = match &clip.source_app {
            Some(s) => Some(s.as_str()),
            None => None,
        };
        let bundle: Option<&str> = match &clip.source_bundle_id {
            Some(s) => Some(s.as_str()),
            None => None,
        };
        if cfg.is_ignored_source(app, bundle) {
            return Ok(InsertOutcome::Skipped(SkipReason::IgnoredSource));
        }
        let len = clip.byte_len();
        if len > cfg.max_clip_bytes {
            return Ok(InsertOutcome::Skipped(SkipReason::TooLarge));
        }
        let hash = clip.digest();
        match self.find_by_hash(&hash) {
            Some(i) => {
                proof {
                    lemma_id_index(self@.rows, self@.last_clip_id, i as int);
                }
                match self.use_row(i, now) {
                    Some(bumped) => Ok(InsertOutcome::Deduped(bumped)),
                    None => Err(Error::CounterExhausted),
                }
            },
            None => {
                if len > MAX_TEXT_BYTES {
                    return Err(Error::Sqlite(owned("string or blob too big")));
                }
                match self.add_row(clip, len, hash, now) {
                    Some(stored) => Ok(InsertOutcome::Stored(stored)),
                    None => Err(Error::CounterExhausted),
                }
            },
        }
    }

    fn next_seq(&self) -> (res: Option<i64>)
        ensures
            match res {
                Some(n) => n == next_seq(self@.rows),
                None => next_seq(self@.rows) > i64::MAX,
            },
    {
        let n = self.clips.len();
        if n == 0 {
            Some(1)
        } else {
            assert(self@.rows.last() == self.clips@.last()@);
            let last = self.clips[n - 1].seq;
            if last == i64::MAX {
                None
            } else {
                Some(last + 1)
            }
        }
    }

    /// Makes the row at `i` the most recently used one.
    fn use_row(&mut self, i: usize, now: i64) -> (res: Option<Clip>)
        requires
            old(self).wf(),
            i < old(self)@.rows.len(),
        ensures
            final(self).wf(),
            final(self).full_text() == old(self).full_text(),
            match res {
                Some(clip) => {
                    let id = old(self)@.rows[i as int].clip.id;
                    &&& old(self)@.can_use(id)
                    &&& changed(*old(self), *final(self), old(self)@.use_of(id, now))
                    &&& clip@ == final(self)@.rows.last().clip
                },
                None => {
                    &&& !old(self)@.can_use(old(self)@.rows[i as int].clip.id)
                    &&& unchanged(*old(self), *final(self))
                },
            },
    {
        let ghost before = *self;
        let ghost id = self@.rows[i as int].clip.id;
        proof {
            lemma_id_index(self@.rows, self@.last_clip_id, i as int);
            assert(self@.rows[i as int] == self.clips@[i as int]@);
        }
        let seq = match self.next_seq() {
            Some(seq) => seq,
            None => {
                return None;
            },
        };
        if self.clips[i].clip.use_count == i64::MAX {
            return None;
        }
        let mut row = self.clips.remove(i);
        row.clip.last_used_at = now;
        row.clip.use_count = row.clip.use_count + 1;
        row.seq = seq;
        let clip = row.clip.clone();
        let change = Change::Use {
            id: row.clip.id,
            last_used_at: now,
            use_count: row.clip.use_count,
            seq,
        };
        self.clips.push(row);
        self.pending.push(change);
        proof {
            let c = before@.use_of(id, now);
            assert(change@ == c);
            assert(self.changes() == before.changes().push(c));
            assert(self@.rows == before@.apply(c).rows);
            assert(self@ == before@.apply(c));
            lemma_use_wf(before@, id, now);
            lemma_same_index(before@.rows, self@.rows, before@.last_clip_id, i as int);
        }
        Some(clip)
    }

    /// Adds a row for a clip that no row holds yet.
    fn add_row(&mut self, clip: &NewClip, len: usize, hash: String, now: i64) -> (res: Option<Clip>)
        requires
            old(self).wf(),
            len == recorded_len(clip@),
            clip@.byte_len() <= MAX_TEXT_BYTES,
            hash@ == clip@.digest(),
            !has_hash(old(self)@.rows, hash@),
        ensures
            final(self).wf(),
            final(self).full_text() ==> old(self).full_text(),
            indexable(clip@.text) ==> final(self).full_text() == old(self).full_text(),
            match res {
                Some(stored) => {
                    &&& old(self)@.last_clip_id < i64::MAX
                    &&& next_seq(old(self)@.rows) <= i64::MAX
                    &&& changed(
                        *old(self),
                        *final(self),
                        ChangeView::Add(old(self)@.new_row(clip@, now)),
                    )
                    &&& stored@ == final(self)@.rows.last().clip
                },
                None => {
                    &&& old(self)@.last_clip_id == i64::MAX || next_seq(old(self)@.rows) > i64::MAX
                    &&& unchanged(*old(self), *final(self))
                },
            },
    {
        let ghost before = *self;
        let seq = match self.next_seq() {
            Some(seq) => seq,
            None => {
                return None;
            },
        };
        if self.last_clip_id == i64::MAX {
            return None;
        }
        let id = self.last_clip_id + 1;
        let row = Row {
            clip: Clip {
                id,
                kind: clip.kind,
                mime: clip.mime.clone(),
                text: copy_opt_text(&clip.text),
                bytes: None,
                byte_len: len as i64,
                source_app: copy_opt_text(&clip.source_app),
                source_bundle_id: copy_opt_text(&clip.source_bundle_id),
                hash,
                created_at: now,
                last_used_at: now,
                use_count: 1,
                pinned: false,
            },
            bytes: copy_opt_bytes(&clip.bytes),
            seq,
        };
        let stored = row.clip.clone();
        let ghost v = before@.new_row(clip@, now);
        assert(row@ == v);
        self.index_row(&row);
        let noted = row.clone();
        self.clips.push(row);
        self.last_clip_id = id;
        self.pending.push(Change::Add(noted));
        proof {
            let c = ChangeView::Add(v);
            assert(self.changes() == before.changes().push(c));
            assert(self@.rows == before@.rows.push(v));
            assert(self@ == before@.apply(c));
            lemma_add_wf(before@, v);
            if self.fts {
                lemma_index_grown(before@, v, indexed(before.conn));
            }
        }
        Some(stored)
    }

    /// Puts a row's text into the full-text index, or gives the index up.
    fn index_row(&mut self, row: &Row)
        ensures
            *final(self) == (Store { conn: final(self).conn, fts: final(self).fts, ..*old(self) }),
            final(self).fts ==> old(self).fts && indexed(final(self).conn) == indexed(
                old(self).conn,
            ).insert(row@.clip.id, row@.clip.text),
            has_default_limits(final(self).conn) == has_default_limits(old(self).conn),
            spills_nothing(final(self).conn) == spills_nothing(old(self).conn),
            has_index(final(self).conn) == has_index(old(self).conn),
            old(self).fts && has_index(old(self).conn) && has_default_limits(old(self).conn)
                && !indexed(old(self).conn).contains_key(row@.clip.id) && indexable(row@.clip.text)
                ==> final(self).fts,
    {
        if self.fts {
            let text: Option<&str> = match &row.clip.text {
                Some(t) => Some(t.as_str()),
                None => None,
            };
            self.fts = index_put(&mut self.conn, row.clip.id, text).is_ok();
        }
    }

    /// Record that a clip was pasted: bumps it to the top of the history.
    pub fn touch(&mut self, id: i64) -> (res: Result<Clip>)
        requires
            old(self).wf(),
        ensures
            final(self).wf(),
            final(self).full_text() == old(self).full_text(),
            exists|now: i64| #[trigger] touched(*old(self), *final(self), id, now, res),
    {
        let now = unix_now();
        self.touch_at(id, now)
    }

    /// Record that a clip was pasted at a given time.
    pub fn touch_at(&mut self, id: i64, now: i64) -> (res: Result<Clip>)
        requires
            old(self).wf(),
        ensures
            final(self).wf(),
            final(self).full_text() == old(self).full_text(),
            touched(*old(self), *final(self), id, now, res),
    {
        match self.find(id) {
            None => Err(Error::ClipNotFound(id)),
            Some(i) => match self.use_row(i, now) {
                Some(clip) => Ok(clip),
                None => Err(Error::CounterExhausted),
            },
        }
    }

    pub fn set_pinned(&mut self, id: i64, pinned: bool) -> (res: Result<Clip>)
        requires
            old(self).wf(),
        ensures
            final(self).wf(),
            final(self).full_text() == old(self).full_text(),
            match res {
                Ok(clip) => {
                    &&& has_id(old(self)@.rows, id)
                    &&& changed(*old(self), *final(self), ChangeView::Pin { id, pinned })
                    &&& clip@ == (ClipView { pinned, ..old(self)@.row(id).clip })
                },
                Err(e) => {
                    &&& !has_id(old(self)@.rows, id)
                    &&& unchanged(*old(self), *final(self))
                    &&& e == Error::ClipNotFound(id)
                },
            },
    {
        let ghost before = *self;
        match self.find(id) {
            None => Err(Error::ClipNotFound(id)),
            Some(i) => {
                let mut row = self.clips.remove(i);
                assert(row@ == before@.rows[i as int]);
                row.clip.pinned = pinned;
                let clip = row.clip.clone();
                self.clips.insert(i, row);
                self.pending.push(Change::Pin { id, pinned });
                proof {
                    let c = ChangeView::Pin { id, pinned };
                    assert(self.changes() == before.changes().push(c));
                    assert(self@.rows == before@.apply(c).rows);
                    assert(self@ == before@.apply(c));
                    lemma_pin_wf(before@, id, pinned);
                    lemma_index_same_texts(before@.rows, self@.rows);
                }
                Ok(clip)
            },
        }
    }

    pub fn delete(&mut self, id: i64) -> (res: Result<()>)
        requires
            old(self).wf(),
        ensures
            final(self).wf(),
            final(self).full_text() == old(self).full_text(),
            match res {
                Ok(_) => has_id(old(self)@.rows, id) && changed(
                    *old(self),
                    *final(self),
                    ChangeView::Drop(id),
                ),
                Err(e) => !has_id(old(self)@.rows, id) && unchanged(*old(self), *final(self)) && e
                    == Error::ClipNotFound(id),
            },
    {
        match self.find(id) {
            None => Err(Error::ClipNotFound(id)),
            Some(i) => {
                self.drop_row(i);
                Ok(())
            },
        }
    }

    /// Removes the row at `i` with its memberships.
    fn drop_row(&mut self, i: usize)
        requires
            old(self).wf(),
            i < old(self)@.rows.len(),
        ensures
            final(self).wf(),
            final(self).full_text() == old(self).full_text(),
            changed(
                *old(self),
                *final(self),
                ChangeView::Drop(old(self)@.rows[i as int].clip.id),
            ),
            final(self)@.rows == old(self)@.rows.remove(i as int),
    {
        let ghost before = *self;
        proof {
            lemma_id_index(self@.rows, self@.last_clip_id, i as int);
        }
        let row = self.clips.remove(i);
        let id = row.clip.id;
        assert(row@ == before@.rows[i as int]);
        if self.fts {
            self.fts = index_remove(&mut self.conn, id).is_ok();
        }
        self.members = members_without_clip(&self.members, id);
        self.pending.push(Change::Drop(id));
        proof {
            let c = ChangeView::Drop(id);
            assert(self.changes() == before.changes().push(c));
            assert(self@.rows == before@.rows.remove(i as int));
            assert(self@ == before@.apply(c));
            lemma_drop_wf(before@, id);
            if self.fts {
                lemma_index_shrunk(before@, i as int, indexed(before.conn));
            }
        }
    }

    fn is_protected_row(&self, i: usize) -> (res: bool)
        requires
            i < self@.rows.len(),
        ensures
            res == is_protected(self@.members, self@.rows[i as int]),
    {
        assert(self@.rows[i as int] == self.clips@[i as int]@);
        if self.clips[i].clip.pinned {
            return true;
        }
        let id = self.clips[i].clip.id;
        for k in 0..self.members.len()
            invariant
                i < self.clips@.len(),
                self@.rows[i as int].clip.id == id,
                self@.members == self.members@,
                forall|j: int| 0 <= j < k ==> (#[trigger] self.members@[j]).clip_id != id,
        {
            if self.members[k].clip_id == id {
                return true;
            }
        }
        false
    }

    /// Removes the unprotected rows, or only those created before a cutoff.
    fn sweep(&mut self, cutoff: Option<i64>)
        requires
            old(self).wf(),
        ensures
            final(self).wf(),
            final(self).full_text() == old(self).full_text(),
            final(self)@ == (StoreView {
                rows: old(self)@.rows.filter(
                    |r: RowView| outlasts(old(self)@.members, cutoff, r),
                ),
                ..old(self)@
            }),
            journaled(*old(self), *final(self)),
    {
        let ghost before = *self;
        let ghost base = self@.rows;
        let ghost keep = |r: RowView| outlasts(before@.members, cutoff, r);
        let ghost mut j: int = 0;
        let mut i: usize = 0;
        proof {
            lemma_journal_start(before);
            lemma_sweep_ends(base, keep);
        }
        while i < self.clips.len()
            invariant
                self.wf(),
                base == before@.rows,
                keep == (|r: RowView| outlasts(before@.members, cutoff, r)),
                self.fts == before.fts,
                journaled(before, *self),
                0 <= j <= base.len(),
                i == base.take(j).filter(keep).len(),
                self@ == (StoreView { rows: base.take(j).filter(keep) + base.skip(j), ..before@ }),
            decreases base.len() - j,
        {
            proof {
                assert(self@.rows[i as int] == self.clips@[i as int]@);
                lemma_sweep(base, keep, j, self@.rows, i as int);
                j = j + 1;
            }
            let old_enough = match cutoff {
                Some(c) => self.clips[i].clip.created_at < c,
                None => true,
            };
            if old_enough && !self.is_protected_row(i) {
                let ghost was = *self;
                self.drop_row(i);
                proof {
                    lemma_drop_free(was@, i as int);
                    lemma_journal_step(before, was, *self, ChangeView::Drop(base[j - 1].clip.id));
                }
            } else {
                i += 1;
            }
        }
        proof {
            assert(self@.rows.len() == self.clips@.len());
            assert(j == base.len());
            lemma_sweep_ends(base, keep);
        }
    }

    /// Wipe history. Pinned clips and pinboard members survive unless
    /// `include_pinned` is set.
    pub fn clear(&mut self, include_pinned: bool) -> (res: Result<usize>)
        requires
            old(self).wf(),
        ensures
            final(self).wf(),
            final(self).full_text() == old(self).full_text(),
            final(self)@ == old(self)@.cleared(include_pinned),
            journaled(*old(self), *final(self)),
            res == Ok::<usize, Error>((old(self)@.rows.len() - final(self)@.rows.len()) as usize),
    {
        let ghost before = *self;
        let had = self.clips.len();
        assert(had == before@.rows.len());
        if include_pinned {
            proof {
                lemma_journal_start(before);
            }
            while self.clips.len() > 0
                invariant
                    self.wf(),
                    self.fts == before.fts,
                    journaled(before, *self),
                    self@ == (StoreView { rows: self@.rows, members: self@.members, ..before@ }),
                decreases self.clips.len(),
            {
                let last = self.clips.len() - 1;
                let ghost was = *self;
                assert(self@.rows.len() == self.clips@.len());
                self.drop_row(last);
                assert(self@.rows.len() == self.clips@.len());
                proof {
                    lemma_journal_step(
                        before,
                        was,
                        *self,
                        ChangeView::Drop(was@.rows[last as int].clip.id),
                    );
                }
            }
            proof {
                assert(self@.rows == Seq::<RowView>::empty());
                lemma_no_members(self@);
            }
        } else {
            self.sweep(None);
            proof {
                let keep = |r: RowView| outlasts(before@.members, None, r);
                lemma_filter_same(
                    before@.rows,
                    keep,
                    |r: RowView| is_protected(before@.members, r),
                );
                lemma_sweep_ends(before@.rows, keep);
            }
        }
        assert(self.clips@.len() == self@.rows.len());
        Ok(had - self.clips.len())
    }

    /// Enforce the retention policy. Never touches pinned clips or clips that
    /// belong to a pinboard.
    pub fn prune(&mut self, cfg: &Config) -> (res: Result<usize>)
        requires
            old(self).wf(),
        ensures
            final(self).wf(),
            final(self).full_text() == old(self).full_text(),
            exists|now: i64| final(self)@ == #[trigger] old(self)@.pruned(cfg@, now),
            journaled(*old(self), *final(self)),
            res == Ok::<usize, Error>((old(self)@.rows.len() - final(self)@.rows.len()) as usize),
    {
        let now = unix_now();
        self.prune_at(cfg, now)
    }

    /// Enforce the retention policy at a given time.
    pub fn prune_at(&mut self, cfg: &Config, now: i64) -> (res: Result<usize>)
        requires
            old(self).wf(),
        ensures
            final(self).wf(),
            final(self).full_text() == old(self).full_text(),
            final(self)@ == old(self)@.pruned(cfg@, now),
            journaled(*old(self), *final(self)),
            res == Ok::<usize, Error>((old(self)@.rows.len() - final(self)@.rows.len()) as usize),
    {
        let ghost before = *self;
        let had = self.clips.len();
        assert(had == before@.rows.len());
        let cutoff = age_limit(cfg.retention_days, now);
        match cutoff {
            Some(c) => self.sweep(Some(c)),
            None => {
                proof {
                    lemma_journal_start(before);
                }
            },
        }
        proof {
            lemma_sweep_is_aging(before@, cfg@, now, cutoff);
            before@.rows.lemma_filter_len(
                |r: RowView| survives_age(before@.members, age_cutoff(cfg@, now), r),
            );
            assert(self@ == (StoreView { rows: before@.aged(cfg@, now), ..before@ }));
        }
        let count = self.count_unprotected();
        let excess = if count > cfg.max_items {
            count - cfg.max_items
        } else {
            0
        };
        let ghost mid = *self;
        self.drop_excess(excess);
        proof {
            law_changes_replay(before, mid, *self);
            lemma_drop_oldest_len(mid@.rows, excess as nat, mid@.members);
            assert(self.clips@.len() == self@.rows.len());
        }
        Ok(had - self.clips.len())
    }

    fn count_unprotected(&self) -> (res: usize)
        ensures
            res == unprotected(self@.rows, self@.members),
    {
        let ghost rows = self@.rows;
        let ghost members = self@.members;
        let ghost free = |r: RowView| !is_protected(members, r);
        let mut count: usize = 0;
        proof {
            lemma_sweep_ends(rows, free);
        }
        for i in 0..self.clips.len()
            invariant
                rows == self@.rows,
                members == self@.members,
                rows.len() == self.clips@.len(),
                free == (|r: RowView| !is_protected(members, r)),
                count == rows.take(i as int).filter(free).len(),
                count <= i,
        {
            proof {
                lemma_filter_step(rows, free, i as int);
            }
            if !self.is_protected_row(i) {
                count += 1;
            }
        }
        assert(rows.take(rows.len() as int) == rows);
        count
    }

    /// Removes the `excess` least recently used unprotected rows.
    fn drop_excess(&mut self, excess: usize)
        requires
            old(self).wf(),
        ensures
            final(self).wf(),
            final(self).full_text() == old(self).full_text(),
            final(self)@ == (StoreView {
                rows: drop_oldest(old(self)@.rows, excess as nat, old(self)@.members),
                ..old(self)@
            }),
            journaled(*old(self), *final(self)),
    {
        let ghost before = *self;
        let ghost target = drop_oldest(self@.rows, excess as nat, self@.members);
        let mut left = excess;
        let mut i: usize = 0;
        proof {
            lemma_journal_start(before);
            assert(self@.rows.skip(0) == self@.rows);
            assert(self@.rows.take(0) + target == target);
        }
        while left > 0 && i < self.clips.len()
            invariant
                self.wf(),
                self.fts == before.fts,
                journaled(before, *self),
                i <= self@.rows.len(),
                self.clips@.len() == self@.rows.len(),
                self@ == (StoreView { rows: self@.rows, ..before@ }),
                target == self@.rows.take(i as int) + drop_oldest(
                    self@.rows.skip(i as int),
                    left as nat,
                    before@.members,
                ),
            decreases self.clips.len() - i,
        {
            let ghost was = *self;
            let ghost tail = was@.rows.skip(i as int);
            assert(tail[0] == was@.rows[i as int]);
            if self.is_protected_row(i) {
                i += 1;
                proof {
                    assert(tail.drop_first() == was@.rows.skip(i as int));
                    assert(was@.rows.take(i - 1) + seq![tail[0]] == was@.rows.take(i as int));
                    assert(target == was@.rows.take(i - 1) + (seq![tail[0]] + drop_oldest(
                        tail.drop_first(),
                        left as nat,
                        before@.members,
                    )));
                }
            } else {
                self.drop_row(i);
                left -= 1;
                proof {
                    lemma_drop_free(was@, i as int);
                    lemma_journal_step(before, was, *self, ChangeView::Drop(tail[0].clip.id));
                    assert(tail.drop_first() == self@.rows.skip(i as int));
                    assert(self@.rows.take(i as int) == was@.rows.take(i as int));
                    assert(self.clips@.len() == self@.rows.len());
                }
            }
        }
        assert(self@.rows == target) by {
            assert(self@.rows.take(i as int) + self@.rows.skip(i as int) == self@.rows);
        }
    }

    // ---- reads -----------------------------------------------------------

    pub fn get(&self, id: i64) -> (res: Result<Clip>)
        requires
            self.wf(),
        ensures
            match res {
                Ok(clip) => has_id(self@.rows, id) && clip@ == self@.row(id).clip,
                Err(e) => !has_id(self@.rows, id) && e == Error::ClipNotFound(id),
            },
    {
        match self.find(id) {
            Some(i) => {
                assert(self@.rows[i as int] == self.clips@[i as int]@);
                Ok(self.clips[i].clip.clone())
            },
            None => Err(Error::ClipNotFound(id)),
        }
    }

    /// The payload of a binary clip, loaded on demand.
    pub fn clip_bytes(&self, id: i64) -> (res: Result<Option<Vec<u8>>>)
        requires
            self.wf(),
        ensures
            match res {
                Ok(bytes) => has_id(self@.rows, id) && opt_bytes(bytes) == self@.row(id).bytes,
                Err(e) => !has_id(self@.rows, id) && e == Error::ClipNotFound(id),
            },
    {
        match self.find(id) {
            Some(i) => {
                assert(self@.rows[i as int] == self.clips@[i as int]@);
                Ok(copy_opt_bytes(&self.clips[i].bytes))
            },
            None => Err(Error::ClipNotFound(id)),
        }
    }

    /// The positions of the flagged rows whose pin state is `pinned`, most
    /// recently used first.
    fn newest_first(
        &self,
        chosen: &Vec<bool>,
        pinned: bool,
        Ghost(keep): Ghost<spec_fn(RowView) -> bool>,
    ) -> (res: Vec<usize>)
        requires
            chosen@.len() == self@.rows.len(),
            forall|i: int| 0 <= i < chosen@.len() ==> #[trigger] chosen@[i] == keep(self@.rows[i]),
        ensures
            forall|k: int| 0 <= k < res@.len() ==> (#[trigger] res@[k]) < self@.rows.len(),
            rows_at(self@.rows, res@) == self@.rows.filter(
                |r: RowView| keep(r) && r.clip.pinned == pinned,
            ).reverse(),
    {
        let ghost rows = self@.rows;
        let ghost want = |r: RowView| keep(r) && r.clip.pinned == pinned;
        let mut out: Vec<usize> = Vec::new();
        let mut i = self.clips.len();
        proof {
            assert(rows.take(i as int) == rows);
            assert(rows_at(rows, out@) == Seq::<RowView>::empty());
        }
        while i > 0
            invariant
                rows == self@.rows,
                i <= rows.len(),
                self.clips@.len() == rows.len(),
                chosen@.len() == rows.len(),
                forall|i: int| 0 <= i < chosen@.len() ==> #[trigger] chosen@[i] == keep(rows[i]),
                want == (|r: RowView| keep(r) && r.clip.pinned == pinned),
                forall|k: int| 0 <= k < out@.len() ==> (#[trigger] out@[k]) < rows.len(),
                rows_at(rows, out@) + rows.take(i as int).filter(want).reverse() == rows.filter(
                    want,
                ).reverse(),
            decreases i,
        {
            i -= 1;
            let ghost head = rows.take(i as int).filter(want);
            let ghost was = out@;
            proof {
                lemma_filter_step(rows, want, i as int);
                assert(rows[i as int] == self.clips@[i as int]@);
            }
            if chosen[i] && self.clips[i].clip.pinned == pinned {
                out.push(i);
                proof {
                    assert(rows_at(rows, out@) == rows_at(rows, was).push(rows[i as int]));
                    lemma_reverse_push(head, rows[i as int]);
                    assert(rows_at(rows, out@) + head.reverse() == rows_at(rows, was) + head.push(
                        rows[i as int],
                    ).reverse());
                }
            }
        }
        proof {
            reveal(Seq::filter);
            assert(rows.take(0).filter(want).reverse() == Seq::<RowView>::empty());
            assert(rows_at(rows, out@) + Seq::<RowView>::empty() == rows_at(rows, out@));
        }
        out
    }

    /// The flagged rows' clips, pinned ones first, then most recently used
    /// first: one page of them.
    fn list(
        &self,
        chosen: &Vec<bool>,
        limit: usize,
        offset: usize,
        Ghost(keep): Ghost<spec_fn(RowView) -> bool>,
    ) -> (res: Vec<Clip>)
        requires
            chosen@.len() == self@.rows.len(),
            forall|i: int| 0 <= i < chosen@.len() ==> #[trigger] chosen@[i] == keep(self@.rows[i]),
        ensures
            clip_views(res@) == clips_of_rows(page(listing(self@.rows, keep), limit, offset)),
    {
        let ghost rows = self@.rows;
        let mut order = self.newest_first(chosen, true, Ghost(keep));
        let mut rest = self.newest_first(chosen, false, Ghost(keep));
        proof {
            lemma_filter_same(
                rows,
                |r: RowView| keep(r) && r.clip.pinned == true,
                |r: RowView| keep(r) && r.clip.pinned,
            );
            lemma_filter_same(
                rows,
                |r: RowView| keep(r) && r.clip.pinned == false,
                |r: RowView| keep(r) && !r.clip.pinned,
            );
            assert(rows_at(rows, order@ + rest@) == rows_at(rows, order@) + rows_at(rows, rest@));
        }
        order.append(&mut rest);
        assert(rows_at(rows, order@) == listing(rows, keep));
        self.pick(&order, limit, offset)
    }

    /// The clips of one page of positions.
    fn pick(&self, order: &Vec<usize>, limit: usize, offset: usize) -> (res: Vec<Clip>)
        requires
            forall|k: int| 0 <= k < order@.len() ==> (#[trigger] order@[k]) < self@.rows.len(),
        ensures
            clip_views(res@) == clips_of_rows(page(rows_at(self@.rows, order@), limit, offset)),
    {
        let ghost all = rows_at(self@.rows, order@);
        let total = order.len();
        let from = if offset <= total {
            offset
        } else {
            total
        };
        let to = if limit <= total - from {
            from + limit
        } else {
            total
        };
        let mut out: Vec<Clip> = Vec::new();
        for k in from..to
            invariant
                from <= to <= total,
                total == order@.len(),
                all == rows_at(self@.rows, order@),
                forall|k: int| 0 <= k < order@.len() ==> (#[trigger] order@[k]) < self@.rows.len(),
                self.clips@.len() == self@.rows.len(),
                out@.len() == k - from,
                forall|j: int| 0 <= j < out@.len() ==> (#[trigger] out@[j])@ == all[from + j].clip,
        {
            let i = order[k];
            assert(self@.rows[i as int] == self.clips@[i as int]@);
            assert(all[k as int] == self@.rows[i as int]);
            out.push(self.clips[i].clip.clone());
        }
        assert(clip_views(out@) == clips_of_rows(page(all, limit, offset)));
        out
    }

    /// Most recently used clips first, pinned ones floated to the top.
    pub fn recent(&self, limit: usize, offset: usize) -> (res: Result<Vec<Clip>>)
        ensures
            res is Ok,
            clip_views(res->Ok_0@) == clips_of_rows(
                page(listing(self@.rows, |r: RowView| true), limit, offset),
            ),
    {
        let mut chosen: Vec<bool> = Vec::new();
        for i in 0..self.clips.len()
            invariant
                chosen@.len() == i,
                forall|j: int| 0 <= j < i ==> #[trigger] chosen@[j],
        {
            chosen.push(true);
        }
        Ok(self.list(&chosen, limit, offset, Ghost(|r: RowView| true)))
    }

    pub fn by_kind(&self, kind: ClipKind, limit: usize) -> (res: Result<Vec<Clip>>)
        ensures
            res is Ok,
            clip_views(res->Ok_0@) == clips_of_rows(
                page(listing(self@.rows, |r: RowView| r.clip.kind == kind), limit, 0),
            ),
    {
        self.by_kind_from(kind, limit, 0)
    }

    /// The clips of one kind in the order of [`Store::recent`], from an offset on.
    pub fn by_kind_from(&self, kind: ClipKind, limit: usize, offset: usize) -> (res: Result<
        Vec<Clip>,
    >)
        ensures
            res is Ok,
            clip_views(res->Ok_0@) == clips_of_rows(
                page(listing(self@.rows, |r: RowView| r.clip.kind == kind), limit, offset),
            ),
    {
        let mut chosen: Vec<bool> = Vec::new();
        for i in 0..self.clips.len()
            invariant
                chosen@.len() == i,
                self@.rows.len() == self.clips@.len(),
                forall|j: int|
                    0 <= j < i ==> #[trigger] chosen@[j] == (self@.rows[j].clip.kind == kind),
        {
            assert(self@.rows[i as int] == self.clips@[i as int]@);
            chosen.push(self.clips[i].clip.kind == kind);
        }
        Ok(self.list(&chosen, limit, offset, Ghost(|r: RowView| r.clip.kind == kind)))
    }

    pub fn pinned(&self, limit: usize) -> (res: Result<Vec<Clip>>)
        ensures
            res is Ok,
            clip_views(res->Ok_0@) == clips_of_rows(
                page(self@.rows.filter(|r: RowView| r.clip.pinned).reverse(), limit, 0),
            ),
    {
        let mut chosen: Vec<bool> = Vec::new();
        for i in 0..self.clips.len()
            invariant
                chosen@.len() == i,
                forall|j: int| 0 <= j < i ==> #[trigger] chosen@[j],
        {
            chosen.push(true);
        }
        let order = self.newest_first(&chosen, true, Ghost(|r: RowView| true));
        proof {
            let keep = |r: RowView| true;
            lemma_filter_same(
                self@.rows,
                |r: RowView| keep(r) && r.clip.pinned == true,
                |r: RowView| r.clip.pinned,
            );
        }
        Ok(self.pick(&order, limit, 0))
    }

    /// Search clip text. Uses FTS5 when available, otherwise a `LIKE` scan.
    ///
    /// The query is treated as literal words, never as FTS syntax, so pasting
    /// something like `a AND "b*` searches for those characters instead of
    /// erroring out. Where full-text search is at work, the index answers. A scan
    /// fails only where the query is longer than a `LIKE` pattern may be.
    pub fn search(&self, query: &str, limit: usize) -> (res: Result<Vec<Clip>>)
        requires
            self.wf(),
        ensures
            match res {
                Ok(found) => if query_tokens(query@).len() == 0 {
                    clip_views(found@) == clips_of_rows(
                        page(listing(self@.rows, |r: RowView| true), limit, 0),
                    )
                } else if index_answers(*self, query@) {
                    found_by_index(
                        self@.rows,
                        match_expression(query_tokens(query@)),
                        limit,
                        clip_views(found@),
                    )
                } else {
                    ||| self.full_text() && found_by_index(
                        self@.rows,
                        match_expression(query_tokens(query@)),
                        limit,
                        clip_views(found@),
                    )
                    ||| clip_views(found@) == clips_of_rows(
                        page(listing(self@.rows, like_rows(query@)), limit, 0),
                    )
                },
                Err(e) => {
                    &&& e is Sqlite
                    &&& query_tokens(query@).len() > 0
                    &&& !index_answers(*self, query@)
                    &&& !can_scan(self@.rows, query@, limit)
                },
            },
    {
        let tokens = tokenize(query);
        assert(chars_view(tokens@).len() == tokens@.len());
        let answer = if tokens.len() > 0 && self.fts {
            assert forall|i: int| 0 <= i < tokens@.len() implies nul_free(
                #[trigger] chars_view(tokens@)[i],
            ) by {
                law_tokens_are_plain_words(query@, i);
            }
            Some(self.search_fts(&tokens))
        } else {
            None
        };
        self.search_answered(query, answer, limit)
    }

    /// Search clip text, given what the full-text index answered: hits as in
    /// [`Store::rank_hits`], or an error. An error degrades the search rather
    /// than fail it, and so does a missing answer; either is made up for by a
    /// `LIKE` scan. A query without words lists everything.
    pub fn search_answered(
        &self,
        query: &str,
        answer: Option<Result<Vec<(i64, i64)>>>,
        limit: usize,
    ) -> (res: Result<Vec<Clip>>)
        requires
            self.wf(),
        ensures
            if query_tokens(query@).len() == 0 {
                res is Ok && clip_views(res->Ok_0@) == clips_of_rows(
                    page(listing(self@.rows, |r: RowView| true), limit, 0),
                )
            } else {
                match answer {
                    Some(Ok(hits)) => res is Ok && clip_views(res->Ok_0@) == clips_of_rows(
                        page(ranked_rows(self@.rows, hits@), limit, 0),
                    ),
                    _ => match res {
                        Ok(found) => {
                            &&& can_scan(self@.rows, query@, limit)
                            &&& clip_views(found@) == clips_of_rows(
                                page(listing(self@.rows, like_rows(query@)), limit, 0),
                            )
                        },
                        Err(e) => e is Sqlite && !can_scan(self@.rows, query@, limit),
                    },
                }
            },
    {
        let tokens = tokenize(query);
        assert(chars_view(tokens@).len() == tokens@.len());
        if tokens.len() == 0 {
            return self.recent(limit, 0);
        }
        match answer {
            Some(Ok(hits)) => Ok(self.rank_hits(&hits, limit)),
            _ => self.search_like(query, limit),
        }
    }

    /// What the full-text index answers to some words.
    fn search_fts(&self, tokens: &Vec<Vec<char>>) -> (res: Result<Vec<(i64, i64)>>)
        requires
            self.wf(),
            self.full_text(),
            tokens@.len() > 0,
            forall|i: int| 0 <= i < tokens@.len() ==> nul_free(#[trigger] chars_view(tokens@)[i]),
        ensures
            match res {
                Ok(hits) => exact_hits(
                    self@.rows,
                    hits@,
                    match_expression(chars_view(tokens@)),
                ),
                Err(e) => e is Sqlite && !text_fits(match_expression(chars_view(tokens@))),
            },
    {
        let expr = fts_expression(tokens);
        assert(is_word_expression(expr@));
        match index_match(&self.conn, expr.as_str()) {
            Ok(hits) => {
                proof {
                    let rows = self@.rows;
                    assert forall|id: i64| #[trigger] is_hit(hits@, id) <==> matches_index(
                        rows,
                        id,
                        expr@,
                    ) by {
                        let index = indexed(self.conn);
                        assert(index.contains_key(id) <==> has_id(rows, id));
                        if has_id(rows, id) {
                            let k = id_index(rows, id);
                            assert(rows[k].clip.id == id);
                            assert(index[id] == rows[k].clip.text);
                        }
                        assert(is_hit(hits@, id) <==> (exists|i: int|
                            0 <= i < hits@.len() && (#[trigger] hits@[i]).0 == id));
                    }
                }
                Ok(hits)
            },
            Err(reason) => Err(Error::Sqlite(reason)),
        }
    }

    /// Search clip text by substring, as `LIKE` compares. Where query and texts
    /// are free of the few characters that SQLite cannot tell apart, the clips
    /// found are those whose text contains the query, ASCII case aside: wildcards
    /// in the query do not widen the match. It fails only where there is a text to look
    /// at and the query is longer than a pattern may be.
    pub fn search_like(&self, query: &str, limit: usize) -> (res: Result<Vec<Clip>>)
        requires
            self.wf(),
        ensures
            match res {
                Ok(found) => {
                    &&& can_scan(self@.rows, query@, limit)
                    &&& clip_views(found@) == clips_of_rows(
                        page(listing(self@.rows, like_rows(query@)), limit, 0),
                    )
                    &&& legible(query@) && texts_legible(self@.rows) ==> clip_views(found@)
                        == clips_of_rows(
                        page(listing(self@.rows, rows_containing(query@)), limit, 0),
                    )
                },
                Err(e) => e is Sqlite && !can_scan(self@.rows, query@, limit),
            },
    {
        if limit == 0 {
            let none: Vec<Clip> = Vec::new();
            proof {
                assert(clip_views(none@) == Seq::<ClipView>::empty());
                assert(clips_of_rows(page(listing(self@.rows, like_rows(query@)), 0, 0))
                    == Seq::<ClipView>::empty());
                assert(clips_of_rows(page(listing(self@.rows, rows_containing(query@)), 0, 0))
                    == Seq::<ClipView>::empty());
            }
            return Ok(none);
        }
        let pattern = like_pattern_for(query);
        let mut chosen: Vec<bool> = Vec::new();
        let ghost keep = like_rows(query@);
        let ghost literal = rows_containing(query@);
        let ghost clear = legible(query@) && texts_legible(self@.rows);
        let ghost short = pattern_fits(like_pattern(query@));
        for i in 0..self.clips.len()
            invariant
                pattern@ == like_pattern(query@),
                keep == like_rows(query@),
                literal == rows_containing(query@),
                clear == (legible(query@) && texts_legible(self@.rows)),
                chosen@.len() == i,
                self@.rows.len() == self.clips@.len(),
                has_default_limits(self.conn),
                limit > 0,
                short == pattern_fits(like_pattern(query@)),
                rows_wf(self@.rows, self@.last_clip_id),
                forall|j: int| 0 <= j < i && (#[trigger] self@.rows[j]).clip.text is Some ==> short,
                forall|j: int| 0 <= j < i ==> #[trigger] chosen@[j] == keep(self@.rows[j]),
                clear ==> forall|j: int|
                    0 <= j < i ==> #[trigger] chosen@[j] == literal(self@.rows[j]),
        {
            assert(self@.rows[i as int] == self.clips@[i as int]@);
            assert(row_wf(self@.rows[i as int], self@.last_clip_id));
            let hit = match &self.clips[i].clip.text {
                Some(text) => match eval_like(&self.conn, text.as_str(), pattern.as_str()) {
                    Ok(hit) => {
                        proof {
                            law_pattern_is_literal(query@, text@);
                            if clear {
                                lemma_pattern_legible(query@);
                                assert(legible(text@));
                            }
                        }
                        hit
                    },
                    Err(reason) => {
                        assert(self@.rows[i as int].clip.text is Some);
                        return Err(Error::Sqlite(reason));
                    },
                },
                None => false,
            };
            chosen.push(hit);
        }
        proof {
            if clear {
                assert forall|j: int| 0 <= j < self@.rows.len() implies keep(
                    #[trigger] self@.rows[j],
                ) == literal(self@.rows[j]) by {
                    assert(chosen@[j] == keep(self@.rows[j]));
                }
                lemma_same_listing(self@.rows, keep, literal);
            }
        }
        Ok(self.list(&chosen, limit, 0, Ghost(keep)))
    }

    /// The clips of search hits in display order: pinned first, then by
    /// relevance level, then most recently used first. A hit is a clip id with a
    /// level, less being better.
    pub fn rank_hits(&self, hits: &Vec<(i64, i64)>, limit: usize) -> (res: Vec<Clip>)
        requires
            self.wf(),
        ensures
            clip_views(res@) == clips_of_rows(page(ranked_rows(self@.rows, hits@), limit, 0)),
    {
        let ghost rows = self@.rows;
        let mut order: Vec<usize> = Vec::new();
        let mut levels: Vec<i64> = Vec::new();
        assert(paired(order@, levels@) == ranked(rows, hits@.take(0)));
        for h in 0..hits.len()
            invariant
                self.wf(),
                rows == self@.rows,
                self.clips@.len() == rows.len(),
                order@.len() == levels@.len(),
                forall|k: int| 0 <= k < order@.len() ==> (#[trigger] order@[k]) < rows.len(),
                paired(order@, levels@) == ranked(rows, hits@.take(h as int)),
        {
            let (id, level) = hits[h];
            proof {
                assert(hits@.take(h + 1).drop_last() == hits@.take(h as int));
                assert(hits@.take(h + 1).last() == hits@[h as int]);
            }
            if let Some(i) = self.find(id) {
                let ghost sorted = paired(order@, levels@);
                let ghost hit = (i as int, level as int);
                let mut p = order.len();
                proof {
                    assert(sorted.take(p as int) == sorted);
                    assert(sorted.skip(p as int) == Seq::<(int, int)>::empty());
                    assert(placed(rows, sorted, hit) + sorted.skip(p as int) == placed(
                        rows,
                        sorted,
                        hit,
                    ));
                }
                while p > 0 && self.outranks(i, level, order[p - 1], levels[p - 1])
                    invariant
                        p <= order@.len(),
                        rows == self@.rows,
                        i < rows.len(),
                        order@.len() == levels@.len(),
                        forall|k: int| 0 <= k < order@.len() ==> (#[trigger] order@[k]) < rows.len(),
                        sorted == paired(order@, levels@),
                        hit == (i as int, level as int),
                        placed(rows, sorted, hit) == placed(rows, sorted.take(p as int), hit)
                            + sorted.skip(p as int),
                    decreases p,
                {
                    proof {
                        let head = sorted.take(p as int);
                        assert(head.last() == sorted[p - 1]);
                        assert(head.drop_last() == sorted.take(p - 1));
                        assert(placed(rows, head, hit) == placed(
                            rows,
                            sorted.take(p - 1),
                            hit,
                        ).push(sorted[p - 1]));
                        assert(sorted.skip(p - 1) == seq![sorted[p - 1]] + sorted.skip(p as int));
                    }
                    p -= 1;
                }
                proof {
                    let head = sorted.take(p as int);
                    if p > 0 {
                        assert(head.last() == sorted[p - 1]);
                    }
                    assert(placed(rows, head, hit) == head.push(hit));
                    assert(sorted.insert(p as int, hit) == head.push(hit) + sorted.skip(p as int));
                }
                order.insert(p, i);
                levels.insert(p, level);
                assert(paired(order@, levels@) == sorted.insert(p as int, hit));
            }
        }
        proof {
            assert(hits@.take(hits@.len() as int) == hits@);
            assert(rows_at(rows, order@) == ranked_rows(rows, hits@));
        }
        self.pick(&order, limit, 0)
    }

    /// Whether the hit on row `a` stands before the hit on row `b`.
    fn outranks(&self, a: usize, a_level: i64, b: usize, b_level: i64) -> (res: bool)
        requires
            a < self@.rows.len(),
            b < self@.rows.len(),
        ensures
            res == ranks_before(
                self@.rows,
                (a as int, a_level as int),
                (b as int, b_level as int),
            ),
    {
        assert(self@.rows[a as int] == self.clips@[a as int]@);
        assert(self@.rows[b as int] == self.clips@[b as int]@);
        let x = &self.clips[a];
        let y = &self.clips[b];
        if x.clip.pinned != y.clip.pinned {
            x.clip.pinned
        } else if a_level != b_level {
            a_level < b_level
        } else {
            x.seq > y.seq
        }
    }

    /// Counts over the whole history. Summing the sizes is an error where it
    /// leaves the 64-bit range.
    pub fn stats(&self) -> (res: Result<Stats>)
        ensures
            match res {
                Ok(stats) => sizes_fit(self@.rows) && stats == stats_of(self@, self.full_text()),
                Err(e) => !sizes_fit(self@.rows) && e is Sqlite && e->Sqlite_0@
                    == "integer overflow"@,
            },
    {
        let ghost rows = self@.rows;
        let ghost is_pinned = |r: RowView| r.clip.pinned;
        let mut pinned: usize = 0;
        let mut total: i64 = 0;
        let mut oldest: Option<i64> = None;
        proof {
            lemma_sweep_ends(rows, is_pinned);
            assert(rows.take(0) == Seq::<RowView>::empty());
        }
        for i in 0..self.clips.len()
            invariant
                rows == self@.rows,
                rows.len() == self.clips@.len(),
                is_pinned == (|r: RowView| r.clip.pinned),
                pinned == rows.take(i as int).filter(is_pinned).len(),
                pinned <= i,
                total == total_size(rows.take(i as int)),
                oldest == earliest(rows.take(i as int)),
                forall|n: int|
                    0 <= n <= i ==> i64::MIN <= #[trigger] total_size(rows.take(n)) <= i64::MAX,
        {
            proof {
                assert(rows[i as int] == self.clips@[i as int]@);
                lemma_filter_step(rows, is_pinned, i as int);
                assert(rows.take(i + 1).drop_last() == rows.take(i as int));
                assert(rows.take(i + 1).last() == rows[i as int]);
            }
            let clip = &self.clips[i].clip;
            if clip.pinned {
                pinned += 1;
            }
            match total.checked_add(clip.byte_len) {
                Some(sum) => {
                    total = sum;
                },
                None => {
                    proof {
                        assert(!(i64::MIN <= total_size(rows.take(i + 1)) <= i64::MAX));
                    }
                    return Err(Error::Sqlite(owned("integer overflow")));
                },
            }
            oldest = match oldest {
                Some(e) => if e <= clip.created_at {
                    Some(e)
                } else {
                    Some(clip.created_at)
                },
                None => Some(clip.created_at),
            };
        }
        assert(rows.take(rows.len() as int) == rows);
        Ok(
            Stats {
                total_clips: self.clips.len() as i64,
                pinned_clips: pinned as i64,
                pinboards: self.boards.len() as i64,
                total_bytes: total,
                oldest_created_at: oldest,
                full_text_search: self.fts,
            },
        )
    }

    // ---- pinboards -------------------------------------------------------

    /// Creates a pinboard, unless there is one of that name already.
    pub fn create_pinboard(&mut self, name: &str) -> (res: Result<Pinboard>)
        requires
            old(self).wf(),
        ensures
            final(self).wf(),
            final(self).full_text() == old(self).full_text(),
            exists|now: i64| #[trigger]
                board_created(*old(self), *final(self), name@, now, res),
    {
        let now = unix_now();
        self.create_pinboard_at(name, now)
    }

    /// Creates a pinboard at a given time, unless there is one of that name
    /// already.
    pub fn create_pinboard_at(&mut self, name: &str, now: i64) -> (res: Result<Pinboard>)
        requires
            old(self).wf(),
        ensures
            final(self).wf(),
            final(self).full_text() == old(self).full_text(),
            board_created(*old(self), *final(self), name@, now, res),
    {
        let ghost before = *self;
        if self.find_board(name).is_none() {
            let n = self.boards.len();
            let position = if n == 0 {
                0
            } else {
                assert(self@.boards.last() == self.boards@.last()@);
                let last = self.boards[n - 1].position;
                if last == i64::MAX {
                    return Err(Error::CounterExhausted);
                }
                last + 1
            };
            if self.last_board_id == i64::MAX {
                return Err(Error::CounterExhausted);
            }
            let board = BoardRow {
                id: self.last_board_id + 1,
                name: owned(name),
                position,
                created_at: now,
            };
            let ghost v = before@.new_board(name@, now);
            assert(board@ == v);
            let id = board.id;
            let noted = board.clone();
            self.boards.push(board);
            self.last_board_id = id;
            self.pending.push(Change::AddBoard(noted));
            proof {
                let c = ChangeView::AddBoard(v);
                assert(self.changes() == before.changes().push(c));
                assert(self@.boards == before@.boards.push(v));
                assert(self@ == before@.apply(c));
                lemma_add_board_wf(before@, v);
                assert(self@.boards[self@.boards.len() - 1].name == name@);
                assert(self@.wf());
                lemma_name_index(
                    self@.boards,
                    self@.last_board_id,
                    self@.boards.len() - 1,
                );
            }
        }
        self.pinboard_by_name(name)
    }

    pub fn pinboard_by_name(&self, name: &str) -> (res: Result<Pinboard>)
        requires
            self.wf(),
        ensures
            match res {
                Ok(board) => has_name(self@.boards, name@) && board@ == pinboard_of(
                    self@,
                    self@.board(name@),
                ),
                Err(e) => !has_name(self@.boards, name@) && is_no_board(e, name@),
            },
    {
        match self.find_board(name) {
            Some(i) => Ok(self.pinboard_at(i)),
            None => Err(Error::PinboardNotFound(owned(name))),
        }
    }

    fn pinboard_at(&self, i: usize) -> (res: Pinboard)
        requires
            self.wf(),
            i < self@.boards.len(),
        ensures
            res@ == pinboard_of(self@, self@.boards[i as int]),
    {
        assert(self@.boards[i as int] == self.boards@[i as int]@);
        let board = &self.boards[i];
        let count = members_on(&self.members, board.id).len();
        Pinboard {
            id: board.id,
            name: board.name.clone(),
            position: board.position,
            clip_count: count as i64,
        }
    }

    /// All pinboards, in order of position.
    pub fn list_pinboards(&self) -> (res: Result<Vec<Pinboard>>)
        requires
            self.wf(),
        ensures
            res is Ok,
            pinboard_views(res->Ok_0@) == self@.boards.map_values(
                |b: BoardView| pinboard_of(self@, b),
            ),
    {
        let mut out: Vec<Pinboard> = Vec::new();
        for i in 0..self.boards.len()
            invariant
                self.wf(),
                self@.boards.len() == self.boards@.len(),
                out@.len() == i,
                forall|j: int|
                    0 <= j < i ==> (#[trigger] out@[j])@ == pinboard_of(self@, self@.boards[j]),
        {
            out.push(self.pinboard_at(i));
        }
        Ok(out)
    }

    pub fn delete_pinboard(&mut self, name: &str) -> (res: Result<()>)
        requires
            old(self).wf(),
        ensures
            final(self).wf(),
            final(self).full_text() == old(self).full_text(),
            match res {
                Ok(_) => has_name(old(self)@.boards, name@) && changed(
                    *old(self),
                    *final(self),
                    ChangeView::DropBoard(old(self)@.board(name@).id),
                ),
                Err(e) => !has_name(old(self)@.boards, name@) && unchanged(
                    *old(self),
                    *final(self),
                ) && is_no_board(e, name@),
            },
    {
        let ghost before = *self;
        match self.find_board(name) {
            None => Err(Error::PinboardNotFound(owned(name))),
            Some(i) => {
                proof {
                    lemma_board_index(self@.boards, self@.last_board_id, i as int);
                }
                let board = self.boards.remove(i);
                let id = board.id;
                assert(board@ == before@.boards[i as int]);
                self.members = members_off(&self.members, id);
                self.pending.push(Change::DropBoard(id));
                proof {
                    let c = ChangeView::DropBoard(id);
                    assert(self.changes() == before.changes().push(c));
                    assert(self@.boards == before@.boards.remove(i as int));
                    assert(self@ == before@.apply(c));
                    lemma_drop_board_wf(before@, id);
                }
                Ok(())
            },
        }
    }

    /// Puts a clip at the end of a pinboard. One that is there already stays
    /// where it is.
    pub fn add_to_pinboard(&mut self, name: &str, clip_id: i64) -> (res: Result<()>)
        requires
            old(self).wf(),
        ensures
            final(self).wf(),
            final(self).full_text() == old(self).full_text(),
            member_added(*old(self), *final(self), name@, clip_id, res),
    {
        let ghost before = *self;
        let board_id = match self.find_board(name) {
            None => {
                return Err(Error::PinboardNotFound(owned(name)));
            },
            Some(i) => {
                proof {
                    lemma_board_index(self@.boards, self@.last_board_id, i as int);
                    assert(self@.boards[i as int] == self.boards@[i as int]@);
                }
                self.boards[i].id
            },
        };
        // Fail loudly on a missing clip rather than with an opaque constraint
        // error.
        if self.find(clip_id).is_none() {
            return Err(Error::ClipNotFound(clip_id));
        }
        let mine = members_on(&self.members, board_id);
        proof {
            lemma_on_board(self@.members, board_id, clip_id);
        }
        for k in 0..mine.len()
            invariant
                mine@ == on_board(self@.members, board_id),
                forall|j: int| 0 <= j < k ==> (#[trigger] mine@[j]).clip_id != clip_id,
                has_member(self@.members, board_id, clip_id) <==> is_member(
                    on_board(self@.members, board_id),
                    clip_id,
                ),
                *self == before,
                before == *old(self),
                before.wf(),
                has_name(before@.boards, name@),
                before@.board(name@).id == board_id,
                has_id(before@.rows, clip_id),
        {
            if mine[k].clip_id == clip_id {
                return Ok(());
            }
        }
        let position = if mine.len() == 0 {
            0
        } else {
            let last = mine[mine.len() - 1].position;
            if last == i64::MAX {
                return Err(Error::CounterExhausted);
            }
            last + 1
        };
        let member = Member { board_id, clip_id, position };
        self.members.push(member);
        self.pending.push(Change::AddMember(member));
        proof {
            let c = ChangeView::AddMember(member);
            assert(self.changes() == before.changes().push(c));
            assert(self@ == before@.apply(c));
            lemma_add_member_wf(before@, member);
        }
        Ok(())
    }

    pub fn remove_from_pinboard(&mut self, name: &str, clip_id: i64) -> (res: Result<()>)
        requires
            old(self).wf(),
        ensures
            final(self).wf(),
            final(self).full_text() == old(self).full_text(),
            match res {
                Ok(_) => has_name(old(self)@.boards, name@) && changed(
                    *old(self),
                    *final(self),
                    ChangeView::DropMember { board_id: old(self)@.board(name@).id, clip_id },
                ),
                Err(e) => !has_name(old(self)@.boards, name@) && unchanged(
                    *old(self),
                    *final(self),
                ) && is_no_board(e, name@),
            },
    {
        let ghost before = *self;
        match self.find_board(name) {
            None => Err(Error::PinboardNotFound(owned(name))),
            Some(i) => {
                assert(self@.boards[i as int] == self.boards@[i as int]@);
                let board_id = self.boards[i].id;
                self.members = members_without(&self.members, board_id, clip_id);
                self.pending.push(Change::DropMember { board_id, clip_id });
                proof {
                    let c = ChangeView::DropMember { board_id, clip_id };
                    assert(self.changes() == before.changes().push(c));
                    assert(self@ == before@.apply(c));
                    lemma_drop_member_wf(before@, board_id, clip_id);
                }
                Ok(())
            },
        }
    }

    /// The clips on a pinboard, in the order they were added.
    pub fn pinboard_clips(&self, name: &str, limit: usize) -> (res: Result<Vec<Clip>>)
        requires
            self.wf(),
        ensures
            match res {
                Ok(clips) => has_name(self@.boards, name@) && clip_views(clips@) == clips_of_rows(
                    page(self@.board_rows(self@.board(name@).id), limit, 0),
                ),
                Err(e) => !has_name(self@.boards, name@) && is_no_board(e, name@),
            },
    {
        match self.find_board(name) {
            None => Err(Error::PinboardNotFound(owned(name))),
            Some(i) => {
                assert(self@.boards[i as int] == self.boards@[i as int]@);
                let board_id = self.boards[i].id;
                let mine = members_on(&self.members, board_id);
                let mut order: Vec<usize> = Vec::new();
                for k in 0..mine.len()
                    invariant
                        self.wf(),
                        mine@ == on_board(self@.members, board_id),
                        order@.len() == k,
                        forall|j: int|
                            0 <= j < k ==> (#[trigger] order@[j]) < self@.rows.len() && order@[j]
                                == id_index(self@.rows, mine@[j].clip_id),
                {
                    proof {
                        lemma_source(
                            self@.members,
                            |m: Member| m.board_id == board_id,
                            k as int,
                        );
                        assert(has_id(self@.rows, mine@[k as int].clip_id));
                    }
                    if let Some(at) = self.find(mine[k].clip_id) {
                        order.push(at);
                    }
                }
                assert(rows_at(self@.rows, order@) == self@.board_rows(board_id));
                Ok(self.pick(&order, limit, 0))
            },
        }
    }

    // ---- loading ---------------------------------------------------------

    /// A store over tables read from disk: clips in order of use, boards and
    /// members in order of position, and the largest ids ever given out. Clips with
    /// equal sequence numbers get different ones, in the order they come in. Tables
    /// that break the invariant otherwise are refused.
    pub fn load(
        clips: Vec<Row>,
        boards: Vec<BoardRow>,
        members: Vec<Member>,
        last_clip_id: i64,
        last_board_id: i64,
    ) -> (res: Result<Self>)
        ensures
            ({
                let given = tables(clips@, boards@, members@, last_clip_id, last_board_id);
                let history = StoreView { rows: settled(given.rows), ..given };
                match res {
                    Ok(store) => {
                        &&& can_settle(given.rows)
                        &&& history.wf()
                        &&& store.wf()
                        &&& store@ == history
                        &&& store.changes() == Seq::<ChangeView>::empty()
                    },
                    Err(e) => if can_settle(given.rows) && history.wf() {
                        e is Sqlite
                    } else {
                        e == Error::InconsistentTables
                    },
                }
            }),
    {
        let clips = match settle(clips) {
            Some(clips) => clips,
            None => {
                return Err(Error::InconsistentTables);
            },
        };
        if !(rows_are_wf(&clips, last_clip_id) && boards_are_wf(&boards, last_board_id)
            && members_are_wf(&members, &boards, &clips)) {
            return Err(Error::InconsistentTables);
        }
        match Store::open_in_memory() {
            Err(e) => Err(e),
            Ok(store) => Ok(store.filled(clips, boards, members, last_clip_id, last_board_id)),
        }
    }

    /// An empty store filled with tables that fit together.
    fn filled(
        self,
        clips: Vec<Row>,
        boards: Vec<BoardRow>,
        members: Vec<Member>,
        last_clip_id: i64,
        last_board_id: i64,
    ) -> (res: Self)
        requires
            self.wf(),
            self@ == StoreView::empty(),
            self.changes() == Seq::<ChangeView>::empty(),
            tables(clips@, boards@, members@, last_clip_id, last_board_id).wf(),
        ensures
            res.wf(),
            res@ == tables(clips@, boards@, members@, last_clip_id, last_board_id),
            res.changes() == Seq::<ChangeView>::empty(),
            res.full_text() ==> self.full_text(),
            texts_indexable(res@.rows) ==> res.full_text() == self.full_text(),
    {
        let mut store = self;
        store.clips = clips;
        store.boards = boards;
        store.members = members;
        store.last_clip_id = last_clip_id;
        store.last_board_id = last_board_id;
        let ghost rows = row_views(clips@);
        let mut i: usize = 0;
        proof {
            assert(rows.take(0) == Seq::<RowView>::empty());
        }
        while i < store.clips.len()
            invariant
                store.clips@ == clips@,
                store.boards@ == boards@,
                store.members@ == members@,
                store.last_clip_id == last_clip_id,
                store.last_board_id == last_board_id,
                store.changes() == Seq::<ChangeView>::empty(),
                has_default_limits(store.conn),
                spills_nothing(store.conn),
                store.fts ==> has_index(store.conn),
                store.fts ==> self.fts,
                texts_indexable(rows) ==> store.fts == self.fts,
                rows == row_views(clips@),
                rows_wf(rows, last_clip_id),
                i <= rows.len(),
                store.fts ==> index_of(indexed(store.conn), rows.take(i as int)),
            decreases store.clips.len() - i,
        {
            let ghost index = indexed(store.conn);
            assert(rows[i as int] == store.clips@[i as int]@);
            if store.fts {
                let text: Option<&str> = match &store.clips[i].clip.text {
                    Some(t) => Some(t.as_str()),
                    None => None,
                };
                assert(!index.contains_key(rows[i as int].clip.id)) by {
                    assert(forall|k: int| 0 <= k < i ==> rows.take(i as int)[k] == rows[k]);
                }
                store.fts = index_put(&mut store.conn, store.clips[i].clip.id, text).is_ok();
                proof {
                    if store.fts {
                        lemma_index_next(rows, last_clip_id, i as int, index);
                    }
                }
            }
            i += 1;
        }
        proof {
            assert(rows.take(rows.len() as int) == rows);
        }
        store
    }
}

/// Whether the full-text index takes every text.
pub open spec fn texts_indexable(rows: Seq<RowView>) -> bool {
    forall|i: int| 0 <= i < rows.len() ==> indexable((#[trigger] rows[i]).clip.text)
}

/// Gives the rows sequence numbers that ascend, where there is room for that.
fn settle(rows: Vec<Row>) -> (res: Option<Vec<Row>>)
    ensures
        match res {
            Some(out) => can_settle(row_views(rows@)) && row_views(out@) == settled(
                row_views(rows@),
            ),
            None => !can_settle(row_views(rows@)),
        },
{
    let ghost v = row_views(rows@);
    let mut out = rows;
    let n = out.len();
    let mut i = n;
    while i > 0
        invariant
            i <= n,
            n == v.len(),
            v == row_views(rows@),
            out@.len() == n,
            forall|k: int| 0 <= k < i ==> (#[trigger] out@[k])@ == v[k],
            forall|k: int| i <= k < n ==> (#[trigger] out@[k])@ == settled(v)[k],
            forall|k: int| i <= k < n ==> i64::MIN <= #[trigger] settled_seq(v, k) <= i64::MAX,
        decreases i,
    {
        i -= 1;
        assert(out@[i as int]@ == v[i as int]);
        if i + 1 < n {
            assert(out@[i + 1]@ == settled(v)[i + 1]);
            let next = out[i + 1].seq;
            assert(next == settled_seq(v, i + 1));
            if out[i].seq >= next {
                if next == i64::MIN {
                    assert(settled_seq(v, i as int) < i64::MIN);
                    return None;
                }
                let mut row = out[i].clone();
                row.seq = next - 1;
                out.set(i, row);
            }
        }
        assert(out@[i as int]@ == settled(v)[i as int]);
    }
    assert(row_views(out@) == settled(v));
    Some(out)
}

/// The history that some tables hold.
pub open spec fn tables(
    clips: Seq<Row>,
    boards: Seq<BoardRow>,
    members: Seq<Member>,
    last_clip_id: i64,
    last_board_id: i64,
) -> StoreView {
    StoreView {
        rows: row_views(clips),
        boards: board_views(boards),
        members,
        last_clip_id,
        last_board_id,
    }
}

/// Whether offering a clip leaves full-text search at work where it is: the index
/// takes its text, or the size limit keeps out every text that it would not take.
pub open spec fn keeps_index(clip: NewClipView, cfg: ConfigView) -> bool {
    indexable(clip.text) || cfg.max_clip_bytes <= MAX_INDEXED_BYTES
}

/// The error for a clip that SQLite does not take.
pub open spec fn is_too_big(e: Error) -> bool {
    e is Sqlite && e->Sqlite_0@ == "string or blob too big"@
}

/// What an offered clip leads to.
pub open spec fn inserted(
    before: Store,
    after: Store,
    offer: Offer,
    res: Result<InsertOutcome>,
) -> bool {
    match offer {
        Offer::Skip(reason) => {
            &&& unchanged(before, after)
            &&& res == Ok::<InsertOutcome, Error>(InsertOutcome::Skipped(reason))
        },
        Offer::Full => {
            &&& unchanged(before, after)
            &&& res is Err
            &&& res->Err_0 is CounterExhausted
        },
        Offer::TooBig => {
            &&& unchanged(before, after)
            &&& res is Err
            &&& is_too_big(res->Err_0)
        },
        Offer::Bump(change) => {
            &&& changed(before, after, change)
            &&& res is Ok
            &&& res->Ok_0 is Deduped
            &&& res->Ok_0->Deduped_0@ == after@.rows.last().clip
        },
        Offer::Add(change) => {
            &&& changed(before, after, change)
            &&& res is Ok
            &&& res->Ok_0 is Stored
            &&& res->Ok_0->Stored_0@ == after@.rows.last().clip
        },
    }
}

/// Moving a row to the end keeps ids and texts.
proof fn lemma_same_index(before: Seq<RowView>, after: Seq<RowView>, last_id: i64, i: int)
    requires
        rows_wf(before, last_id),
        0 <= i < before.len(),
        after.len() == before.len(),
        after == before.remove(i).push(after.last()),
        after.last().clip.id == before[i].clip.id,
        after.last().clip.text == before[i].clip.text,
    ensures
        forall|index: Map<i64, Option<Seq<char>>>|
            index_of(index, before) ==> #[trigger] index_of(index, after),
{
    lemma_removed_rows(before, last_id, i);
    lemma_grown_rows(before.remove(i), after.last());
    assert forall|index: Map<i64, Option<Seq<char>>>| index_of(index, before) implies 
        #[trigger] index_of(index, after) by {
        assert forall|k: int| 0 <= k < after.len() implies index[(#[trigger] after[k]).clip.id]
            == after[k].clip.text by {
            if k < after.len() - 1 {
                assert(after[k] == before[if k < i {
                    k
                } else {
                    k + 1
                }]);
            } else {
                assert(index[before[i].clip.id] == before[i].clip.text);
            }
        }
    }
}

/// Indexing a new row keeps the index in step.
proof fn lemma_index_grown(v: StoreView, row: RowView, index: Map<i64, Option<Seq<char>>>)
    requires
        v.wf(),
        row.clip.id > v.last_clip_id,
        index_of(index, v.rows),
    ensures
        index_of(index.insert(row.clip.id, row.clip.text), v.rows.push(row)),
{
    lemma_grown_rows(v.rows, row);
    let after = v.rows.push(row);
    let grown = index.insert(row.clip.id, row.clip.text);
    assert forall|id: i64| #[trigger] grown.contains_key(id) <==> has_id(after, id) by {
        assert(index.contains_key(id) <==> has_id(v.rows, id));
    }
    assert forall|k: int| 0 <= k < after.len() implies grown[(#[trigger] after[k]).clip.id]
        == after[k].clip.text by {
        if k < v.rows.len() {
            assert(after[k] == v.rows[k]);
            assert(v.rows[k].clip.id <= v.last_clip_id);
        }
    }
}

/// What using a clip leads to.
pub open spec fn touched(
    before: Store,
    after: Store,
    id: i64,
    now: i64,
    res: Result<Clip>,
) -> bool {
    match res {
        Ok(clip) => {
            &&& has_id(before@.rows, id)
            &&& before@.can_use(id)
            &&& changed(before, after, before@.use_of(id, now))
            &&& clip@ == after@.rows.last().clip
        },
        Err(e) => {
            &&& unchanged(before, after)
            &&& if has_id(before@.rows, id) {
                !before@.can_use(id) && e is CounterExhausted
            } else {
                e == Error::ClipNotFound(id)
            }
        },
    }
}

/// The members that do not name a clip.
fn members_without_clip(members: &Vec<Member>, id: i64) -> (res: Vec<Member>)
    ensures
        res@ == members@.filter(|m: Member| m.clip_id != id),
{
    let mut out: Vec<Member> = Vec::new();
    let ghost keep = |m: Member| m.clip_id != id;
    assert(members@.take(0).filter(keep) == Seq::<Member>::empty()) by {
        reveal(Seq::filter);
    }
    for i in 0..members.len()
        invariant
            keep == (|m: Member| m.clip_id != id),
            out@ == members@.take(i as int).filter(keep),
    {
        proof {
            lemma_filter_step(members@, keep, i as int);
        }
        if members[i].clip_id != id {
            out.push(members[i]);
        }
    }
    assert(members@.take(members@.len() as int) == members@);
    out
}

/// An index that holds the texts of some rows holds those of rows with the same
/// ids and texts.
proof fn lemma_index_same_texts(before: Seq<RowView>, after: Seq<RowView>)
    requires
        before.len() == after.len(),
        forall|i: int|
            0 <= i < before.len() ==> (#[trigger] after[i]).clip.id == before[i].clip.id
                && after[i].clip.text == before[i].clip.text,
    ensures
        forall|index: Map<i64, Option<Seq<char>>>|
            index_of(index, before) ==> #[trigger] index_of(index, after),
{
    assert forall|id: i64| has_id(after, id) <==> has_id(before, id) by {
        if has_id(before, id) {
            let k = choose|k: int| 0 <= k < before.len() && (#[trigger] before[k]).clip.id == id;
            assert(after[k].clip.id == id);
        }
        if has_id(after, id) {
            let k = choose|k: int| 0 <= k < after.len() && (#[trigger] after[k]).clip.id == id;
            assert(before[k].clip.id == id);
        }
    }
    assert forall|index: Map<i64, Option<Seq<char>>>| index_of(index, before) implies 
        #[trigger] index_of(index, after) by {
        assert forall|k: int| 0 <= k < after.len() implies index[(#[trigger] after[k]).clip.id]
            == after[k].clip.text by {
            assert(index[before[k].clip.id] == before[k].clip.text);
        }
    }
}

/// Taking a row out of the index with the row keeps the index in step.
proof fn lemma_index_shrunk(v: StoreView, i: int, index: Map<i64, Option<Seq<char>>>)
    requires
        v.wf(),
        0 <= i < v.rows.len(),
        index_of(index, v.rows),
    ensures
        index_of(index.remove(v.rows[i].clip.id), v.rows.remove(i)),
{
    lemma_removed_rows(v.rows, v.last_clip_id, i);
    let after = v.rows.remove(i);
    let shrunk = index.remove(v.rows[i].clip.id);
    assert forall|id: i64| #[trigger] shrunk.contains_key(id) <==> has_id(after, id) by {
        assert(index.contains_key(id) <==> has_id(v.rows, id));
    }
    assert forall|k: int| 0 <= k < after.len() implies shrunk[(#[trigger] after[k]).clip.id]
        == after[k].clip.text by {
        let o = if k < i {
            k
        } else {
            k + 1
        };
        assert(after[k] == v.rows[o]);
        if o < i {
            assert(v.rows[o].clip.id != v.rows[i].clip.id);
        } else {
            assert(v.rows[i].clip.id != v.rows[o].clip.id);
        }
    }
}

/// Dropping a clip that is on no board touches no membership.
proof fn lemma_drop_free(v: StoreView, i: int)
    requires
        v.wf(),
        0 <= i < v.rows.len(),
        !is_member(v.members, v.rows[i].clip.id),
    ensures
        v.apply(ChangeView::Drop(v.rows[i].clip.id)) == (StoreView {
            rows: v.rows.remove(i),
            ..v
        }),
{
    let id = v.rows[i].clip.id;
    lemma_id_index(v.rows, v.last_clip_id, i);
    lemma_filter_all(v.members, |m: Member| m.clip_id != id);
}

/// A history without clips has no memberships.
proof fn lemma_no_members(v: StoreView)
    requires
        v.wf(),
        v.rows.len() == 0,
    ensures
        v.members == Seq::<Member>::empty(),
{
    if v.members.len() > 0 {
        assert(has_id(v.rows, v.members[0].clip_id));
    }
}

/// A journal continues itself.
proof fn lemma_journal_start(s: Store)
    ensures
        journaled(s, s),
{
    let n = s.changes().len() as int;
    assert(s.changes().take(n) == s.changes());
    assert(s.changes().skip(n) == Seq::<ChangeView>::empty());
}

/// One more change keeps a journal continued.
proof fn lemma_journal_step(before: Store, mid: Store, after: Store, change: ChangeView)
    requires
        journaled(before, mid),
        changed(mid, after, change),
    ensures
        journaled(before, after),
{
    let n = before.changes().len() as int;
    assert(after.changes().take(n) == mid.changes().take(n));
    let more = after.changes().skip(n);
    assert(more == mid.changes().skip(n).push(change));
    assert(more.drop_last() == mid.changes().skip(n));
}

/// Whether a row outlasts a sweep.
pub open spec fn outlasts(members: Seq<Member>, cutoff: Option<i64>, row: RowView) -> bool {
    is_protected(members, row) || match cutoff {
        Some(c) => row.clip.created_at >= c,
        None => false,
    }
}

/// The creation time before which a clip is too old, where there is one.
fn age_limit(retention_days: u64, now: i64) -> (res: Option<i64>)
    ensures
        match res {
            Some(c) => retention_days > 0 && c == now - retention_days * 86_400,
            None => retention_days == 0 || now - retention_days * 86_400 < i64::MIN,
        },
{
    if retention_days == 0 || retention_days > 213_503_982_334_601 {
        None
    } else {
        let cutoff: i128 = now as i128 - (retention_days as i128) * 86_400;
        if cutoff < i64::MIN as i128 {
            None
        } else {
            Some(cutoff as i64)
        }
    }
}

/// Sweeping with the age limit leaves what age pruning leaves.
proof fn lemma_sweep_is_aging(
    v: StoreView,
    cfg: crate::config::ConfigView,
    now: i64,
    cutoff: Option<i64>,
)
    requires
        match cutoff {
            Some(c) => cfg.retention_days > 0 && c == now - cfg.retention_days * 86_400,
            None => cfg.retention_days == 0 || now - cfg.retention_days * 86_400 < i64::MIN,
        },
    ensures
        cutoff is Some ==> v.aged(cfg, now) == v.rows.filter(
            |r: RowView| outlasts(v.members, cutoff, r),
        ),
        cutoff is None ==> v.aged(cfg, now) == v.rows,
{
    let survive = |r: RowView| survives_age(v.members, age_cutoff(cfg, now), r);
    if cutoff is Some {
        lemma_filter_same(v.rows, survive, |r: RowView| outlasts(v.members, cutoff, r));
    } else {
        lemma_filter_all(v.rows, survive);
    }
}

/// Dropping rows leaves no more than there were.
proof fn lemma_drop_oldest_len(rows: Seq<RowView>, count: nat, members: Seq<Member>)
    ensures
        drop_oldest(rows, count, members).len() <= rows.len(),
    decreases rows.len(),
{
    if count > 0 && rows.len() > 0 {
        if is_protected(members, rows[0]) {
            lemma_drop_oldest_len(rows.drop_first(), count, members);
        } else {
            lemma_drop_oldest_len(rows.drop_first(), (count - 1) as nat, members);
        }
    }
}

/// Applying changes in two parts.
pub proof fn lemma_apply_all_join(v: StoreView, a: Seq<ChangeView>, b: Seq<ChangeView>)
    ensures
        v.apply_all(a).apply_all(b) == v.apply_all(a + b),
    decreases b.len(),
{
    if b.len() == 0 {
        assert(a + b == a);
    } else {
        lemma_apply_all_join(v, a, b.drop_last());
        assert((a + b).drop_last() == a + b.drop_last());
    }
}

/// The rows at some positions.
pub open spec fn rows_at(rows: Seq<RowView>, order: Seq<usize>) -> Seq<RowView> {
    order.map_values(|i: usize| rows[i as int])
}

/// Row positions with their levels.
spec fn paired(order: Seq<usize>, levels: Seq<i64>) -> Seq<(int, int)> {
    Seq::new(order.len(), |k: int| (order[k] as int, levels[k] as int))
}

/// Whether an id is among some search hits.
pub open spec fn is_hit(hits: Seq<(i64, i64)>, id: i64) -> bool {
    exists|i: int| 0 <= i < hits.len() && (#[trigger] hits[i]).0 == id
}

/// Whether a row has this id and a text that satisfies a match expression.
pub open spec fn matches_index(rows: Seq<RowView>, id: i64, expr: Seq<char>) -> bool {
    has_id(rows, id) && match rows[id_index(rows, id)].clip.text {
        Some(text) => fts5_matches(text, expr),
        None => false,
    }
}

/// Whether some hits are the rows that satisfy a match expression, each once.
pub open spec fn exact_hits(rows: Seq<RowView>, hits: Seq<(i64, i64)>, expr: Seq<char>) -> bool {
    &&& forall|i: int, j: int|
        0 <= i < j < hits.len() ==> (#[trigger] hits[i]).0 != (#[trigger] hits[j]).0
    &&& forall|id: i64| #[trigger] is_hit(hits, id) <==> matches_index(rows, id, expr)
}

/// Whether some clips are the first `limit` of the rows that satisfy a match
/// expression, in display order under some relevance levels.
pub open spec fn found_by_index(
    rows: Seq<RowView>,
    expr: Seq<char>,
    limit: usize,
    found: Seq<ClipView>,
) -> bool {
    exists|hits: Seq<(i64, i64)>| #[trigger]
        exact_hits(rows, hits, expr) && found == clips_of_rows(
            page(ranked_rows(rows, hits), limit, 0),
        )
}

/// The rows whose text contains a query as `LIKE` compares.
pub open spec fn like_rows(query: Seq<char>) -> spec_fn(RowView) -> bool {
    |r: RowView|
        match r.clip.text {
            Some(text) => sqlite_like(text, like_pattern(query)),
            None => false,
        }
}

/// A pinboard with the number of clips on it.
#[derive(Debug, PartialEq, Eq)]
pub struct Pinboard {
    pub id: i64,
    pub name: String,
    pub position: i64,
    pub clip_count: i64,
}

/// The content of a [`Pinboard`].
pub struct PinboardView {
    pub id: i64,
    pub name: Seq<char>,
    pub position: i64,
    pub clip_count: i64,
}

impl View for Pinboard {
    type V = PinboardView;

    open spec fn view(&self) -> PinboardView {
        PinboardView {
            id: self.id,
            name: self.name@,
            position: self.position,
            clip_count: self.clip_count,
        }
    }
}

impl Clone for Pinboard {
    fn clone(&self) -> (res: Self)
        ensures
            res@ == self@,
    {
        Pinboard {
            id: self.id,
            name: self.name.clone(),
            position: self.position,
            clip_count: self.clip_count,
        }
    }
}

/// The contents of some pinboards.
pub open spec fn pinboard_views(boards: Seq<Pinboard>) -> Seq<PinboardView> {
    boards.map_values(|b: Pinboard| b@)
}

/// A board with the number of clips on it.
pub open spec fn pinboard_of(v: StoreView, board: BoardView) -> PinboardView {
    PinboardView {
        id: board.id,
        name: board.name,
        position: board.position,
        clip_count: on_board(v.members, board.id).len() as i64,
    }
}

/// Counts over the whole history.
#[derive(Debug, Clone, Copy, PartialEq, Eq)]
pub struct Stats {
    pub total_clips: i64,
    pub pinned_clips: i64,
    pub pinboards: i64,
    pub total_bytes: i64,
    pub oldest_created_at: Option<i64>,
    pub full_text_search: bool,
}

/// The counts of a history.
pub open spec fn stats_of(v: StoreView, full_text: bool) -> Stats {
    Stats {
        total_clips: v.rows.len() as i64,
        pinned_clips: v.rows.filter(|r: RowView| r.clip.pinned).len() as i64,
        pinboards: v.boards.len() as i64,
        total_bytes: total_size(v.rows) as i64,
        oldest_created_at: earliest(v.rows),
        full_text_search: full_text,
    }
}

/// The error for a missing pinboard.
pub open spec fn is_no_board(e: Error, name: Seq<char>) -> bool {
    e is PinboardNotFound && e->PinboardNotFound_0@ == name
}

/// What creating a pinboard leads to.
pub open spec fn board_created(
    before: Store,
    after: Store,
    name: Seq<char>,
    now: i64,
    res: Result<Pinboard>,
) -> bool {
    if has_name(before@.boards, name) {
        &&& unchanged(before, after)
        &&& res is Ok
        &&& res->Ok_0@ == pinboard_of(before@, before@.board(name))
    } else if before@.last_board_id < i64::MAX && next_board_position(before@.boards) <= i64::MAX {
        &&& changed(before, after, ChangeView::AddBoard(before@.new_board(name, now)))
        &&& res is Ok
        &&& res->Ok_0@ == pinboard_of(after@, before@.new_board(name, now))
    } else {
        &&& unchanged(before, after)
        &&& res is Err
        &&& res->Err_0 is CounterExhausted
    }
}

/// What putting a clip on a pinboard leads to.
pub open spec fn member_added(
    before: Store,
    after: Store,
    name: Seq<char>,
    clip_id: i64,
    res: Result<()>,
) -> bool {
    let board_id = before@.board(name).id;
    let position = next_member_position(before@.members, board_id);
    if !has_name(before@.boards, name) {
        unchanged(before, after) && res is Err && is_no_board(res->Err_0, name)
    } else if !has_id(before@.rows, clip_id) {
        unchanged(before, after) && res is Err && res->Err_0 == Error::ClipNotFound(clip_id)
    } else if has_member(before@.members, board_id, clip_id) {
        unchanged(before, after) && res is Ok
    } else if position > i64::MAX {
        unchanged(before, after) && res is Err && res->Err_0 is CounterExhausted
    } else {
        res is Ok && changed(
            before,
            after,
            ChangeView::AddMember(Member { board_id, clip_id, position: position as i64 }),
        )
    }
}

/// A clip is on a board when it is among the board's members.
proof fn lemma_on_board(members: Seq<Member>, board_id: i64, clip_id: i64)
    ensures
        has_member(members, board_id, clip_id) <==> is_member(
            on_board(members, board_id),
            clip_id,
        ),
{
    let p = |m: Member| m.board_id == board_id;
    let mine = on_board(members, board_id);
    if has_member(members, board_id, clip_id) {
        let k = choose|k: int|
            0 <= k < members.len() && (#[trigger] members[k]).board_id == board_id
                && members[k].clip_id == clip_id;
        let i = lemma_filter_has(members, p, k);
        assert(mine[i].clip_id == clip_id);
    }
    if is_member(mine, clip_id) {
        let i = choose|i: int| 0 <= i < mine.len() && (#[trigger] mine[i]).clip_id == clip_id;
        lemma_source(members, p, i);
        let k = source(members, p, i);
        assert(members[k].board_id == board_id && members[k].clip_id == clip_id);
    }
}

/// The members of a board.
fn members_on(members: &Vec<Member>, board_id: i64) -> (res: Vec<Member>)
    ensures
        res@ == on_board(members@, board_id),
{
    let mut out: Vec<Member> = Vec::new();
    let ghost keep = |m: Member| m.board_id == board_id;
    proof {
        lemma_sweep_ends(members@, keep);
    }
    for i in 0..members.len()
        invariant
            keep == (|m: Member| m.board_id == board_id),
            out@ == members@.take(i as int).filter(keep),
    {
        proof {
            lemma_filter_step(members@, keep, i as int);
        }
        if members[i].board_id == board_id {
            out.push(members[i]);
        }
    }
    assert(members@.take(members@.len() as int) == members@);
    out
}

/// The members of the other boards.
fn members_off(members: &Vec<Member>, board_id: i64) -> (res: Vec<Member>)
    ensures
        res@ == members@.filter(|m: Member| m.board_id != board_id),
{
    let mut out: Vec<Member> = Vec::new();
    let ghost keep = |m: Member| m.board_id != board_id;
    proof {
        lemma_sweep_ends(members@, keep);
    }
    for i in 0..members.len()
        invariant
            keep == (|m: Member| m.board_id != board_id),
            out@ == members@.take(i as int).filter(keep),
    {
        proof {
            lemma_filter_step(members@, keep, i as int);
        }
        if members[i].board_id != board_id {
            out.push(members[i]);
        }
    }
    assert(members@.take(members@.len() as int) == members@);
    out
}

/// The members other than one clip on one board.
fn members_without(members: &Vec<Member>, board_id: i64, clip_id: i64) -> (res: Vec<Member>)
    ensures
        res@ == members@.filter(|m: Member| !(m.board_id == board_id && m.clip_id == clip_id)),
{
    let mut out: Vec<Member> = Vec::new();
    let ghost keep = |m: Member| !(m.board_id == board_id && m.clip_id == clip_id);
    proof {
        lemma_sweep_ends(members@, keep);
    }
    for i in 0..members.len()
        invariant
            keep == (|m: Member| !(m.board_id == board_id && m.clip_id == clip_id)),
            out@ == members@.take(i as int).filter(keep),
    {
        proof {
            lemma_filter_step(members@, keep, i as int);
        }
        if !(members[i].board_id == board_id && members[i].clip_id == clip_id) {
            out.push(members[i]);
        }
    }
    assert(members@.take(members@.len() as int) == members@);
    out
}

/// Indexing the next row keeps the index in step.
proof fn lemma_index_next(
    rows: Seq<RowView>,
    last_id: i64,
    i: int,
    index: Map<i64, Option<Seq<char>>>,
)
    requires
        rows_wf(rows, last_id),
        0 <= i < rows.len(),
        index_of(index, rows.take(i)),
    ensures
        index_of(index.insert(rows[i].clip.id, rows[i].clip.text), rows.take(i + 1)),
{
    let before = rows.take(i);
    let after = rows.take(i + 1);
    let grown = index.insert(rows[i].clip.id, rows[i].clip.text);
    assert(after == before.push(rows[i]));
    lemma_grown_rows(before, rows[i]);
    assert forall|id: i64| #[trigger] grown.contains_key(id) <==> has_id(after, id) by {
        assert(index.contains_key(id) <==> has_id(before, id));
    }
    assert forall|k: int| 0 <= k < after.len() implies grown[(#[trigger] after[k]).clip.id]
        == after[k].clip.text by {
        if k < i {
            assert(before[k] == rows[k]);
            assert(rows[k].clip.id != rows[i].clip.id);
        }
    }
}

/// Whether a text, where there is one, is short enough for SQLite.
fn text_is_short(text: &Option<String>) -> (res: bool)
    ensures
        res == (opt_text(*text) matches Some(t) ==> text_fits(t)),
{
    match text {
        Some(t) => t.as_str().as_bytes().len() <= MAX_TEXT_BYTES,
        None => true,
    }
}

fn rows_are_wf(rows: &Vec<Row>, last_id: i64) -> (res: bool)
    ensures
        res == rows_wf(row_views(rows@), last_id),
{
    let ghost v = row_views(rows@);
    for j in 0..rows.len()
        invariant
            v == row_views(rows@),
            rows_wf(v.take(j as int), last_id),
    {
        assert(v[j as int] == rows@[j as int]@);
        if rows[j].clip.id > last_id || rows[j].clip.bytes.is_some() || !text_is_short(
            &rows[j].clip.text,
        ) {
            assert(!row_wf(v[j as int], last_id));
            assert(!rows_wf(v, last_id));
            return false;
        }
        for i in 0..j
            invariant
                v == row_views(rows@),
                j < rows@.len(),
                forall|k: int|
                    0 <= k < i ==> (#[trigger] v[k]).clip.id != v[j as int].clip.id
                        && v[k].clip.hash != v[j as int].clip.hash && v[k].seq < v[j as int].seq,
        {
            assert(v[i as int] == rows@[i as int]@);
            assert(v[j as int] == rows@[j as int]@);
            if rows[i].clip.id == rows[j].clip.id || rows[i].clip.hash == rows[j].clip.hash
                || rows[i].seq >= rows[j].seq {
                assert(!rows_wf(v, last_id));
                return false;
            }
        }
        assert(rows_wf(v.take(j + 1), last_id)) by {
            let now = v.take(j + 1);
            assert forall|a: int, b: int| 0 <= a < b < now.len() implies (
            #[trigger] now[a]).clip.id != (#[trigger] now[b]).clip.id && now[a].clip.hash
                != now[b].clip.hash && now[a].seq < now[b].seq by {
                if b < j {
                    assert(v.take(j as int)[a].clip.id != v.take(j as int)[b].clip.id);
                } else {
                    assert(v[a].clip.id != v[j as int].clip.id);
                }
            }
            assert forall|a: int| 0 <= a < now.len() implies row_wf(#[trigger] now[a], last_id) by {
                if a < j {
                    assert(row_wf(v.take(j as int)[a], last_id));
                }
            }
        }
    }
    assert(v.take(v.len() as int) == v);
    true
}

fn boards_are_wf(boards: &Vec<BoardRow>, last_id: i64) -> (res: bool)
    ensures
        res == boards_wf(board_views(boards@), last_id),
{
    let ghost v = board_views(boards@);
    for j in 0..boards.len()
        invariant
            v == board_views(boards@),
            boards_wf(v.take(j as int), last_id),
    {
        assert(v[j as int] == boards@[j as int]@);
        if boards[j].id > last_id {
            assert(!boards_wf(v, last_id));
            return false;
        }
        for i in 0..j
            invariant
                v == board_views(boards@),
                j < boards@.len(),
                forall|k: int|
                    0 <= k < i ==> (#[trigger] v[k]).id != v[j as int].id && v[k].name
                        != v[j as int].name && v[k].position <= v[j as int].position,
        {
            assert(v[i as int] == boards@[i as int]@);
            assert(v[j as int] == boards@[j as int]@);
            if boards[i].id == boards[j].id || boards[i].name == boards[j].name
                || boards[i].position > boards[j].position {
                assert(!boards_wf(v, last_id));
                return false;
            }
        }
        assert(boards_wf(v.take(j + 1), last_id)) by {
            let now = v.take(j + 1);
            assert forall|a: int, b: int| 0 <= a < b < now.len() implies (#[trigger] now[a]).id
                != (#[trigger] now[b]).id && now[a].name != now[b].name && now[a].position
                <= now[b].position by {
                if b < j {
                    assert(v.take(j as int)[a].id != v.take(j as int)[b].id);
                } else {
                    assert(v[a].id != v[j as int].id);
                }
            }
            assert forall|a: int| 0 <= a < now.len() implies (#[trigger] now[a]).id <= last_id by {
                if a < j {
                    assert(v.take(j as int)[a].id <= last_id);
                }
            }
        }
    }
    assert(v.take(v.len() as int) == v);
    true
}

fn members_are_wf(members: &Vec<Member>, boards: &Vec<BoardRow>, rows: &Vec<Row>) -> (res: bool)
    ensures
        res == members_wf(members@, board_views(boards@), row_views(rows@)),
{
    let ghost bv = board_views(boards@);
    let ghost rv = row_views(rows@);
    for j in 0..members.len()
        invariant
            bv == board_views(boards@),
            rv == row_views(rows@),
            members_wf(members@.take(j as int), bv, rv),
    {
        if !board_exists(boards, members[j].board_id) || !clip_exists(rows, members[j].clip_id) {
            assert(!members_wf(members@, bv, rv));
            return false;
        }
        for i in 0..j
            invariant
                j < members@.len(),
                bv == board_views(boards@),
                rv == row_views(rows@),
                forall|k: int|
                    0 <= k < i && (#[trigger] members@[k]).board_id == members@[j as int].board_id
                        ==> members@[k].clip_id != members@[j as int].clip_id
                        && members@[k].position <= members@[j as int].position,
        {
            if members[i].board_id == members[j].board_id && (members[i].clip_id
                == members[j].clip_id || members[i].position > members[j].position) {
                assert(!members_wf(members@, bv, rv));
                return false;
            }
        }
        assert(members_wf(members@.take(j + 1), bv, rv)) by {
            let now = members@.take(j + 1);
            let was = members@.take(j as int);
            assert forall|a: int| 0 <= a < now.len() implies has_board(
                bv,
                (#[trigger] now[a]).board_id,
            ) && has_id(rv, now[a].clip_id) by {
                if a < j {
                    assert(was[a] == now[a]);
                }
            }
            assert forall|a: int, b: int|
                0 <= a < b < now.len() && (#[trigger] now[a]).board_id == (
                #[trigger] now[b]).board_id implies now[a].clip_id != now[b].clip_id
                && now[a].position <= now[b].position by {
                if b < j {
                    assert(was[a] == now[a] && was[b] == now[b]);
                } else {
                    assert(now[a] == members@[a]);
                }
            }
        }
    }
    assert(members@.take(members@.len() as int) == members@);
    true
}

fn board_exists(boards: &Vec<BoardRow>, id: i64) -> (res: bool)
    ensures
        res == has_board(board_views(boards@), id),
{
    let ghost v = board_views(boards@);
    for i in 0..boards.len()
        invariant
            v == board_views(boards@),
            forall|k: int| 0 <= k < i ==> (#[trigger] v[k]).id != id,
    {
        assert(v[i as int] == boards@[i as int]@);
        if boards[i].id == id {
            return true;
        }
    }
    false
}

fn clip_exists(rows: &Vec<Row>, id: i64) -> (res: bool)
    ensures
        res == has_id(row_views(rows@), id),
{
    let ghost v = row_views(rows@);
    for i in 0..rows.len()
        invariant
            v == row_views(rows@),
            forall|k: int| 0 <= k < i ==> (#[trigger] v[k]).clip.id != id,
    {
        assert(v[i as int] == rows@[i as int]@);
        if rows[i].clip.id == id {
            return true;
        }
    }
    false
}

/// The kind stored under a name. An unknown name counts as text.
pub fn stored_kind(name: &str) -> (res: ClipKind)
    ensures
        res == match ClipKind::named(name@) {
            Some(kind) => kind,
            None => ClipKind::Text,
        },
{
    match ClipKind::parse(name) {
        Some(kind) => kind,
        None => ClipKind::Text,
    }
}

/// Whether deletions have left a database file mostly empty: more than a quarter
/// of its pages are free, and there are enough of them to matter.
pub fn wants_vacuum(free_pages: i64, total_pages: i64) -> (res: bool)
    ensures
        res == (total_pages > 1024 && free_pages * 4 > total_pages),
{
    total_pages > 1024 && free_pages as i128 * 4 > total_pages as i128
}

/// Whether some clip has a text.
pub open spec fn has_text(rows: Seq<RowView>) -> bool {
    exists|i: int| 0 <= i < rows.len() && (#[trigger] rows[i]).clip.text is Some
}

/// Whether the full-text index is at work and takes a query.
pub open spec fn index_answers(store: Store, query: Seq<char>) -> bool {
    store.full_text() && text_fits(match_expression(query_tokens(query)))
}

/// Whether a `LIKE` scan for a query succeeds: there is nothing to look at, or
/// the pattern is short enough.
pub open spec fn can_scan(rows: Seq<RowView>, query: Seq<char>, limit: usize) -> bool {
    limit == 0 || !has_text(rows) || pattern_fits(like_pattern(query))
}

/// Whether every text is free of the characters that SQLite cannot tell apart.
pub open spec fn texts_legible(rows: Seq<RowView>) -> bool {
    forall|i: int|
        0 <= i < rows.len() ==> match (#[trigger] rows[i]).clip.text {
            Some(text) => legible(text),
            None => true,
        }
}

/// The rows whose text contains a query, ASCII case aside.
pub open spec fn rows_containing(query: Seq<char>) -> spec_fn(RowView) -> bool {
    |r: RowView|
        match r.clip.text {
            Some(text) => has_part(lowered(text), lowered(query)),
            None => false,
        }
}

/// Conditions that agree on the rows list the same ones.
proof fn lemma_same_listing(
    rows: Seq<RowView>,
    p: spec_fn(RowView) -> bool,
    q: spec_fn(RowView) -> bool,
)
    requires
        forall|i: int| 0 <= i < rows.len() ==> p(#[trigger] rows[i]) == q(rows[i]),
    ensures
        listing(rows, p) == listing(rows, q),
{
    lemma_filter_same(
        rows,
        |r: RowView| p(r) && r.clip.pinned,
        |r: RowView| q(r) && r.clip.pinned,
    );
    lemma_filter_same(
        rows,
        |r: RowView| p(r) && !r.clip.pinned,
        |r: RowView| q(r) && !r.clip.pinned,
    );
}

} // verus!
