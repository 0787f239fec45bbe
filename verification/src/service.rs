//! Everything the daemon does, independent of transport.

use vstd::prelude::*;
use crate::clip::{Clip, ClipKind, ClipView, NewClip, NewClipView};
use crate::clipboard::{self, ClipboardBackend, Payload};
use crate::config::{clamped, Config, ConfigView};
use crate::error::{Error, Result};
use crate::laws::{law_changes_replay, law_one_change_replays, law_prune_spares_the_latest};
use crate::model::{
    clips_of_rows, has_id, has_member, has_name, hash_index, id_index, listing,
    next_board_position, next_member_position, page, sizes_fit, BoardView, ChangeView, Member,
    Offer, RowView, StoreView,
};
use crate::protocol::{Request, Response, ResponseView, StatusReport, StatusView};
use crate::search::{match_expression, query_tokens, MAX_INDEXED_BYTES};
use crate::store::{
    can_scan, found_by_index, index_answers, is_too_big, journaled, keeps_index, like_rows,
    pinboard_of, stats_of, InsertOutcome, Store,
};
use crate::text::{append_chars, chars_of, owned, string_of};
use crate::trusted::{
    base64_standard, clock_now, debug_quoted, encode_standard, seconds_since, unix_now,
};

verus! {

/// The version reported to clients.
pub const VERSION: &'static str = "0.1.0";

/// Upper bound on any `limit` a client can ask for, so one bad request cannot
/// make the daemon materialize the whole history.
pub const MAX_LIMIT: usize = 1_000;

/// The page size granted for the one asked for.
pub open spec fn granted(limit: usize) -> usize {
    clamped(limit as int, 1, MAX_LIMIT as int) as usize
}

/// The page size granted for the one asked for.
pub fn clamp_limit(limit: usize) -> (res: usize)
    ensures
        res == granted(limit),
        1 <= res <= MAX_LIMIT,
{
    if limit < 1 {
        1
    } else if limit > MAX_LIMIT {
        MAX_LIMIT
    } else {
        limit
    }
}

/// Something to put on the clipboard before a request is answered.
#[derive(Debug)]
pub enum Job {
    Text(String),
    Image { bytes: Vec<u8>, mime: String },
}

/// The content of a [`Job`].
pub enum JobView {
    Text(Seq<char>),
    Image { bytes: Seq<u8>, mime: Seq<char> },
}

impl View for Job {
    type V = JobView;

    open spec fn view(&self) -> JobView {
        match self {
            Job::Text(text) => JobView::Text(text@),
            Job::Image { bytes, mime } => JobView::Image { bytes: bytes@, mime: mime@ },
        }
    }
}

/// What serving a request takes: nothing more, or a turn at the clipboard.
#[derive(Debug)]
pub enum Step {
    /// The reply.
    Reply(Response),
    /// Put this on the clipboard, then call [`Dispatcher::finish_copy`].
    Write { id: i64, job: Job },
    /// Read the clipboard, then call [`Dispatcher::finish_capture`].
    Read,
}

/// The content of a [`Step`].
pub enum StepView {
    Reply(ResponseView),
    Write { id: i64, job: JobView },
    Read,
}

impl View for Step {
    type V = StepView;

    open spec fn view(&self) -> StepView {
        match self {
            Step::Reply(response) => StepView::Reply(response@),
            Step::Write { id, job } => StepView::Write { id: *id, job: job@ },
            Step::Read => StepView::Read,
        }
    }
}

/// Serves requests against a history, leaving the clipboard to the caller: a
/// request that needs it is served in two halves, with the clipboard's turn in
/// between.
pub struct Dispatcher {
    pub store: Store,
    pub config: Config,
    pub backend_name: String,
    pub data_dir: String,
    /// Whether the daemon was asked to exit.
    pub shutdown: bool,
}

/// Whether nothing but the history and the exit flag differs.
pub open spec fn same_desk(before: Dispatcher, after: Dispatcher) -> bool {
    &&& after.config == before.config
    &&& after.backend_name == before.backend_name
    &&& after.data_dir == before.data_dir
}

/// An error reply.
pub open spec fn refused(message: Seq<char>) -> ResponseView {
    ResponseView::Error { message }
}

/// The reply for a missing clip.
pub open spec fn no_clip(id: i64) -> ResponseView {
    refused(Error::ClipNotFound(id).text())
}

/// The reply for a missing pinboard.
pub open spec fn no_board(name: Seq<char>) -> ResponseView {
    refused("pinboard "@ + debug_quoted(name) + " not found"@)
}

/// The reply where a counter has run out.
pub open spec fn no_room() -> ResponseView {
    refused(Error::CounterExhausted.text())
}

/// The reply to a status request.
pub open spec fn status_reply(desk: Dispatcher, uptime_secs: u64) -> ResponseView {
    if sizes_fit(desk.store@.rows) {
        ResponseView::Status(
            StatusView {
                version: VERSION@,
                backend: desk.backend_name@,
                uptime_secs,
                poll_interval_ms: desk.config.poll_interval_ms,
                stats: stats_of(desk.store@, desk.store.full_text()),
                data_dir: desk.data_dir@,
            },
        )
    } else {
        refused("database error: "@ + "integer overflow"@)
    }
}

/// The clips that a list request gets.
pub open spec fn listed(
    v: StoreView,
    limit: usize,
    offset: usize,
    kind: Option<ClipKind>,
) -> Seq<ClipView> {
    clips_of_rows(
        match kind {
            Some(k) => page(
                listing(v.rows, |r: RowView| r.clip.kind == k),
                granted(limit),
                offset,
            ),
            None => page(listing(v.rows, |r: RowView| true), granted(limit), offset),
        },
    )
}

/// Whether a reply answers a search. The index answers where it is at work and
/// takes the query; else a scan does, and only a query too long for that is
/// answered with an error.
pub open spec fn answers_search(
    store: Store,
    query: Seq<char>,
    limit: usize,
    response: ResponseView,
) -> bool {
    match response {
        ResponseView::Clips { clips } => if query_tokens(query).len() == 0 {
            clips == clips_of_rows(page(listing(store@.rows, |r: RowView| true), limit, 0))
        } else if index_answers(store, query) {
            found_by_index(
                store@.rows,
                match_expression(query_tokens(query)),
                limit,
                clips,
            )
        } else {
            ||| store.full_text() && found_by_index(
                store@.rows,
                match_expression(query_tokens(query)),
                limit,
                clips,
            )
            ||| clips == clips_of_rows(page(listing(store@.rows, like_rows(query)), limit, 0))
        },
        ResponseView::Error { message } => query_tokens(query).len() > 0 && !index_answers(
            store,
            query,
        ) && !can_scan(store@.rows, query, limit) && exists|reason: Seq<char>|
            message == #[trigger] ("database error: "@ + reason),
        _ => false,
    }
}

/// The reply that carries a clip's payload.
pub open spec fn payload_reply(v: StoreView, id: i64) -> ResponseView {
    if has_id(v.rows, id) {
        ResponseView::Bytes {
            base64: match v.row(id).bytes {
                Some(bytes) => Some(base64_standard(bytes)),
                None => None,
            },
        }
    } else {
        no_clip(id)
    }
}

/// How copying a clip begins: with its text, else with its payload.
pub open spec fn copy_step(v: StoreView, id: i64) -> StepView {
    if !has_id(v.rows, id) {
        StepView::Reply(no_clip(id))
    } else {
        let row = v.row(id);
        match (row.clip.text, row.bytes) {
            (Some(text), _) => StepView::Write { id, job: JobView::Text(text) },
            (None, Some(bytes)) => StepView::Write {
                id,
                job: JobView::Image { bytes, mime: row.clip.mime },
            },
            (None, None) => StepView::Reply(
                refused("clip has no content to place on the clipboard"@),
            ),
        }
    }
}

/// The number of rows that went, as a reply.
pub open spec fn count_reply(before: StoreView, after: StoreView) -> ResponseView {
    ResponseView::Count { count: (before.rows.len() - after.rows.len()) as usize }
}

/// Whether a history and a step are what a request leads to.
pub open spec fn began(
    desk: Dispatcher,
    req: Request,
    now: i64,
    uptime_secs: u64,
    after: StoreView,
    step: StepView,
) -> bool {
    let v = desk.store@;
    match req {
        Request::Ping => after == v && step == StepView::Reply(
            ResponseView::Pong { version: VERSION@ },
        ),
        Request::Status => after == v && step == StepView::Reply(status_reply(desk, uptime_secs)),
        Request::List { limit, offset, kind } => after == v && step == StepView::Reply(
            ResponseView::Clips { clips: listed(v, limit, offset, kind) },
        ),
        Request::Search { query, limit } => after == v && step is Reply && answers_search(
            desk.store,
            query@,
            granted(limit),
            step->Reply_0,
        ),
        Request::Get { id } => after == v && step == StepView::Reply(
            if has_id(v.rows, id) {
                ResponseView::Clip { clip: v.row(id).clip }
            } else {
                no_clip(id)
            },
        ),
        Request::GetBytes { id } => after == v && step == StepView::Reply(payload_reply(v, id)),
        Request::Copy { id } => after == v && step == copy_step(v, id),
        Request::Pin { id, pinned } => if has_id(v.rows, id) {
            after == v.apply(ChangeView::Pin { id, pinned }) && step == StepView::Reply(
                ResponseView::Clip { clip: ClipView { pinned, ..v.row(id).clip } },
            )
        } else {
            after == v && step == StepView::Reply(no_clip(id))
        },
        Request::Delete { id } => if has_id(v.rows, id) {
            after == v.apply(ChangeView::Drop(id)) && step == StepView::Reply(ResponseView::Done)
        } else {
            after == v && step == StepView::Reply(no_clip(id))
        },
        Request::Clear { include_pinned } => after == v.cleared(include_pinned) && step
            == StepView::Reply(count_reply(v, after)),
        Request::CaptureNow => after == v && step == StepView::Read,
        Request::Prune => after == v.pruned(desk.config@, now) && step == StepView::Reply(
            count_reply(v, after),
        ),
        Request::Pinboards => after == v && step == StepView::Reply(
            ResponseView::Pinboards {
                pinboards: v.boards.map_values(|b: BoardView| pinboard_of(v, b)),
            },
        ),
        Request::PinboardCreate { name } => if has_name(v.boards, name@) {
            after == v && step == StepView::Reply(ResponseView::Done)
        } else if v.last_board_id < i64::MAX && next_board_position(v.boards) <= i64::MAX {
            after == v.apply(ChangeView::AddBoard(v.new_board(name@, now))) && step
                == StepView::Reply(ResponseView::Done)
        } else {
            after == v && step == StepView::Reply(no_room())
        },
        Request::PinboardDelete { name } => if has_name(v.boards, name@) {
            after == v.apply(ChangeView::DropBoard(v.board(name@).id)) && step == StepView::Reply(
                ResponseView::Done,
            )
        } else {
            after == v && step == StepView::Reply(no_board(name@))
        },
        Request::PinboardAdd { name, id } => {
            let board_id = v.board(name@).id;
            let position = next_member_position(v.members, board_id);
            if !has_name(v.boards, name@) {
                after == v && step == StepView::Reply(no_board(name@))
            } else if !has_id(v.rows, id) {
                after == v && step == StepView::Reply(no_clip(id))
            } else if has_member(v.members, board_id, id) {
                after == v && step == StepView::Reply(ResponseView::Done)
            } else if position > i64::MAX {
                after == v && step == StepView::Reply(no_room())
            } else {
                after == v.apply(
                    ChangeView::AddMember(
                        Member { board_id, clip_id: id, position: position as i64 },
                    ),
                ) && step == StepView::Reply(ResponseView::Done)
            }
        },
        Request::PinboardRemove { name, id } => if has_name(v.boards, name@) {
            after == v.apply(
                ChangeView::DropMember { board_id: v.board(name@).id, clip_id: id },
            ) && step == StepView::Reply(ResponseView::Done)
        } else {
            after == v && step == StepView::Reply(no_board(name@))
        },
        Request::PinboardClips { name, limit } => after == v && step == StepView::Reply(
            if has_name(v.boards, name@) {
                ResponseView::Clips {
                    clips: clips_of_rows(
                        page(v.board_rows(v.board(name@).id), granted(limit), 0),
                    ),
                }
            } else {
                no_board(name@)
            },
        ),
        Request::Shutdown => after == v && step == StepView::Reply(ResponseView::Done),
    }
}

/// The message of a failed clipboard write.
pub open spec fn write_failure(outcome: clipboard::Result<()>) -> Option<Seq<char>> {
    match outcome {
        Ok(_) => None,
        Err(e) => Some(e.text()),
    }
}

/// Whether a reply is what copying a clip ends in. A failed clipboard write is
/// reported, and the clip does not count as used.
pub open spec fn copied(
    v: StoreView,
    after: StoreView,
    id: i64,
    failure: Option<Seq<char>>,
    now: i64,
    response: ResponseView,
) -> bool {
    match failure {
        Some(message) => after == v && response == refused(message),
        None => if !has_id(v.rows, id) {
            after == v && response == no_clip(id)
        } else if v.can_use(id) {
            after == v.apply(v.use_of(id, now)) && response == (ResponseView::Clip {
                clip: after.rows.last().clip,
            })
        } else {
            after == v && response == no_room()
        },
    }
}

/// The history after a clip was offered, with the retention policy applied where
/// it was new.
pub open spec fn ingested(
    v: StoreView,
    clip: NewClipView,
    cfg: ConfigView,
    now: i64,
    later: i64,
) -> StoreView {
    match v.offer(clip, cfg, now) {
        Offer::Add(change) => v.apply(change).pruned(cfg, later),
        Offer::Bump(change) => v.apply(change),
        _ => v,
    }
}

/// Whether an outcome is what offering a clip leads to.
pub open spec fn outcome_of(
    v: StoreView,
    clip: NewClipView,
    cfg: ConfigView,
    now: i64,
    res: Result<InsertOutcome>,
) -> bool {
    match v.offer(clip, cfg, now) {
        Offer::Skip(reason) => res == Ok::<InsertOutcome, Error>(InsertOutcome::Skipped(reason)),
        Offer::Full => res is Err && res->Err_0 is CounterExhausted,
        Offer::TooBig => res is Err && is_too_big(res->Err_0),
        Offer::Bump(change) => res is Ok && res->Ok_0 is Deduped && res->Ok_0->Deduped_0@
            == v.apply(change).rows.last().clip,
        Offer::Add(change) => res is Ok && res->Ok_0 is Stored && res->Ok_0->Stored_0@ == v.apply(
            change,
        ).rows.last().clip,
    }
}

/// The reply to a capture of some clip.
pub open spec fn capture_reply(
    v: StoreView,
    clip: NewClipView,
    cfg: ConfigView,
    now: i64,
) -> ResponseView {
    match v.offer(clip, cfg, now) {
        Offer::Skip(reason) => refused("clipboard contents skipped: "@ + reason.text()),
        Offer::Full => no_room(),
        Offer::TooBig => refused("database error: "@ + "string or blob too big"@),
        Offer::Bump(change) => ResponseView::Clip { clip: v.apply(change).rows.last().clip },
        Offer::Add(change) => ResponseView::Clip { clip: v.apply(change).rows.last().clip },
    }
}

/// Whether a reply is what reading the clipboard on demand ends in.
pub open spec fn captured(
    v: StoreView,
    after: StoreView,
    outcome: clipboard::Result<Option<NewClip>>,
    cfg: ConfigView,
    now: i64,
    later: i64,
    response: ResponseView,
) -> bool {
    match outcome {
        Err(e) => after == v && response == refused(e.text()),
        Ok(None) => after == v && response == refused("the clipboard is empty"@),
        Ok(Some(clip)) => after == ingested(v, clip@, cfg, now, later) && response
            == capture_reply(v, clip@, cfg, now),
    }
}

fn failed(e: &Error) -> (res: Response)
    ensures
        res@ == refused(e.text()),
{
    let message = e.message();
    Response::error(message.as_str())
}

impl Dispatcher {
    pub fn new(store: Store, config: Config, backend_name: &str, data_dir: String) -> (res: Self)
        ensures
            res.store == store,
            res.config == config,
            res.backend_name@ == backend_name@,
            res.data_dir == data_dir,
            !res.shutdown,
    {
        Dispatcher {
            store,
            config,
            backend_name: owned(backend_name),
            data_dir,
            shutdown: false,
        }
    }

    /// Serve a request as far as it goes without the clipboard.
    ///
    /// Every arm gives a reply rather than an error, so a bad request from one
    /// client never takes the daemon down. Every request is served, with no
    /// entitlement check of any kind.
    pub fn begin(&mut self, req: Request, now: i64, uptime_secs: u64) -> (res: Step)
        requires
            old(self).store.wf(),
        ensures
            final(self).store.wf(),
            same_desk(*old(self), *final(self)),
            final(self).shutdown == (old(self).shutdown || req is Shutdown),
            journaled(old(self).store, final(self).store),
            final(self).store.full_text() == old(self).store.full_text(),
            began(*old(self), req, now, uptime_secs, final(self).store@, res@),
    {
        let ghost before = *self;
        proof {
            crate::laws::law_one_change_replays(self.store, self.store, ChangeView::Drop(0));
        }
        match req {
            Request::Ping => Step::Reply(Response::Pong { version: owned(VERSION) }),
            Request::Status => Step::Reply(self.status(uptime_secs)),
            Request::List { limit, offset, kind } => {
                let limit = clamp_limit(limit);
                let result = match kind {
                    Some(k) => self.store.by_kind_from(k, limit, offset),
                    None => self.store.recent(limit, offset),
                };
                Step::Reply(clips_reply(result))
            },
            Request::Search { query, limit } => {
                let result = self.store.search(query.as_str(), clamp_limit(limit));
                proof {
                    if result is Err {
                        let e = result->Err_0;
                        assert(e.text() == "database error: "@ + e->Sqlite_0@);
                    }
                }
                Step::Reply(clips_reply(result))
            },
            Request::Get { id } => {
                let result = self.store.get(id);
                Step::Reply(clip_reply(result))
            },
            Request::GetBytes { id } => {
                let result = self.store.clip_bytes(id);
                Step::Reply(
                    match result {
                        Ok(bytes) => Response::Bytes {
                            base64: match bytes {
                                Some(b) => Some(encode_standard(&b)),
                                None => None,
                            },
                        },
                        Err(e) => failed(&e),
                    },
                )
            },
            Request::Copy { id } => self.begin_copy(id),
            Request::Pin { id, pinned } => {
                let result = self.store.set_pinned(id, pinned);
                proof {
                    law_one_change_replays(
                        before.store,
                        self.store,
                        ChangeView::Pin { id, pinned },
                    );
                }
                Step::Reply(clip_reply(result))
            },
            Request::Delete { id } => {
                let result = self.store.delete(id);
                proof {
                    law_one_change_replays(before.store, self.store, ChangeView::Drop(id));
                }
                Step::Reply(done_reply(result))
            },
            Request::Clear { include_pinned } => {
                let result = self.store.clear(include_pinned);
                Step::Reply(number_reply(result))
            },
            Request::CaptureNow => Step::Read,
            Request::Prune => {
                let result = self.store.prune_at(&self.config, now);
                Step::Reply(number_reply(result))
            },
            Request::Pinboards => {
                let result = self.store.list_pinboards();
                Step::Reply(
                    match result {
                        Ok(pinboards) => Response::Pinboards { pinboards },
                        Err(e) => failed(&e),
                    },
                )
            },
            Request::PinboardCreate { name } => {
                let result = self.store.create_pinboard_at(name.as_str(), now);
                proof {
                    law_one_change_replays(
                        before.store,
                        self.store,
                        ChangeView::AddBoard(before.store@.new_board(name@, now)),
                    );
                }
                Step::Reply(
                    match result {
                        Ok(_) => Response::Done,
                        Err(e) => failed(&e),
                    },
                )
            },
            Request::PinboardDelete { name } => {
                let result = self.store.delete_pinboard(name.as_str());
                proof {
                    law_one_change_replays(
                        before.store,
                        self.store,
                        ChangeView::DropBoard(before.store@.board(name@).id),
                    );
                }
                Step::Reply(done_reply(result))
            },
            Request::PinboardAdd { name, id } => {
                let result = self.store.add_to_pinboard(name.as_str(), id);
                proof {
                    let v = before.store@;
                    let board_id = v.board(name@).id;
                    let position = next_member_position(v.members, board_id) as i64;
                    law_one_change_replays(
                        before.store,
                        self.store,
                        ChangeView::AddMember(Member { board_id, clip_id: id, position }),
                    );
                }
                Step::Reply(done_reply(result))
            },
            Request::PinboardRemove { name, id } => {
                let result = self.store.remove_from_pinboard(name.as_str(), id);
                proof {
                    law_one_change_replays(
                        before.store,
                        self.store,
                        ChangeView::DropMember {
                            board_id: before.store@.board(name@).id,
                            clip_id: id,
                        },
                    );
                }
                Step::Reply(done_reply(result))
            },
            Request::PinboardClips { name, limit } => {
                let result = self.store.pinboard_clips(name.as_str(), clamp_limit(limit));
                Step::Reply(clips_reply(result))
            },
            Request::Shutdown => {
                self.shutdown = true;
                Step::Reply(Response::Done)
            },
        }
    }

    fn status(&self, uptime_secs: u64) -> (res: Response)
        ensures
            res@ == status_reply(*self, uptime_secs),
    {
        match self.store.stats() {
            Ok(stats) => Response::Status(
                Box::new(
                    StatusReport {
                        version: owned(VERSION),
                        backend: self.backend_name.clone(),
                        uptime_secs,
                        poll_interval_ms: self.config.poll_interval_ms,
                        stats,
                        data_dir: self.data_dir.clone(),
                    },
                ),
            ),
            Err(e) => failed(&e),
        }
    }

    /// Collects what is needed before the clipboard is touched.
    fn begin_copy(&self, id: i64) -> (res: Step)
        requires
            self.store.wf(),
        ensures
            res@ == copy_step(self.store@, id),
    {
        let clip = match self.store.get(id) {
            Ok(clip) => clip,
            Err(e) => {
                return Step::Reply(failed(&e));
            },
        };
        match clip.text {
            Some(text) => Step::Write { id, job: Job::Text(text) },
            None => match self.store.clip_bytes(id) {
                Ok(Some(bytes)) => Step::Write { id, job: Job::Image { bytes, mime: clip.mime } },
                Ok(None) => Step::Reply(
                    Response::error("clip has no content to place on the clipboard"),
                ),
                Err(e) => Step::Reply(failed(&e)),
            },
        }
    }

    /// The second half of copying a clip, once the clipboard was written.
    pub fn finish_copy(&mut self, id: i64, outcome: clipboard::Result<()>, now: i64) -> (res:
        Response)
        requires
            old(self).store.wf(),
        ensures
            final(self).store.wf(),
            same_desk(*old(self), *final(self)),
            final(self).shutdown == old(self).shutdown,
            journaled(old(self).store, final(self).store),
            final(self).store.full_text() == old(self).store.full_text(),
            copied(
                old(self).store@,
                final(self).store@,
                id,
                write_failure(outcome),
                now,
                res@,
            ),
    {
        let ghost before = *self;
        proof {
            law_one_change_replays(self.store, self.store, ChangeView::Drop(0));
        }
        match outcome {
            Err(e) => {
                let message = e.message();
                Response::error(message.as_str())
            },
            Ok(_) => {
                let result = self.store.touch_at(id, now);
                proof {
                    law_one_change_replays(
                        before.store,
                        self.store,
                        before.store@.use_of(id, now),
                    );
                }
                clip_reply(result)
            },
        }
    }

    /// Store a clip that was just observed.
    ///
    /// Prunes opportunistically on new inserts rather than on a timer: the only
    /// moment the history can exceed its limits is right after something was
    /// added.
    pub fn ingest_at(&mut self, clip: &NewClip, now: i64, later: i64) -> (res: Result<
        InsertOutcome,
    >)
        requires
            old(self).store.wf(),
        ensures
            final(self).store.wf(),
            same_desk(*old(self), *final(self)),
            final(self).shutdown == old(self).shutdown,
            journaled(old(self).store, final(self).store),
            final(self).store.full_text() ==> old(self).store.full_text(),
            keeps_index(clip@, old(self).config@) ==> final(self).store.full_text() == old(
                self,
            ).store.full_text(),
            final(self).store@ == ingested(
                old(self).store@,
                clip@,
                old(self).config@,
                now,
                later,
            ),
            outcome_of(old(self).store@, clip@, old(self).config@, now, res),
    {
        let ghost before = *self;
        let outcome = self.store.insert_at(clip, &self.config, now);
        let ghost offer = before.store@.offer(clip@, before.config@, now);
        let ghost mid = *self;
        proof {
            let change = match offer {
                Offer::Bump(c) => c,
                Offer::Add(c) => c,
                _ => ChangeView::Drop(0),
            };
            law_one_change_replays(before.store, self.store, change);
        }
        if let Ok(InsertOutcome::Stored(_)) = &outcome {
            let pruned = self.store.prune_at(&self.config, later);
            proof {
                law_changes_replay(before.store, mid.store, self.store);
            }
        }
        outcome
    }

    /// The second half of a capture, once the clipboard was read.
    pub fn finish_capture(
        &mut self,
        outcome: clipboard::Result<Option<NewClip>>,
        now: i64,
        later: i64,
    ) -> (res: Response)
        requires
            old(self).store.wf(),
        ensures
            final(self).store.wf(),
            same_desk(*old(self), *final(self)),
            final(self).shutdown == old(self).shutdown,
            journaled(old(self).store, final(self).store),
            final(self).store.full_text() ==> old(self).store.full_text(),
            (outcome matches Ok(Some(clip)) ==> keeps_index(clip@, old(self).config@))
                ==> final(self).store.full_text() == old(self).store.full_text(),
            captured(
                old(self).store@,
                final(self).store@,
                outcome,
                old(self).config@,
                now,
                later,
                res@,
            ),
    {
        proof {
            law_one_change_replays(self.store, self.store, ChangeView::Drop(0));
        }
        match outcome {
            Err(e) => {
                let message = e.message();
                Response::error(message.as_str())
            },
            Ok(None) => Response::error("the clipboard is empty"),
            Ok(Some(clip)) => match self.ingest_at(&clip, now, later) {
                Ok(InsertOutcome::Stored(c)) => Response::Clip { clip: Box::new(c) },
                Ok(InsertOutcome::Deduped(c)) => Response::Clip { clip: Box::new(c) },
                Ok(InsertOutcome::Skipped(reason)) => {
                    let mut message = chars_of("clipboard contents skipped: ");
                    append_chars(&mut message, &chars_of(reason.as_str()));
                    let message = string_of(&message);
                    Response::error(message.as_str())
                },
                Err(e) => failed(&e),
            },
        }
    }
}

fn clips_reply(result: Result<Vec<Clip>>) -> (res: Response)
    ensures
        res@ == match result {
            Ok(clips) => ResponseView::Clips { clips: crate::clip::clip_views(clips@) },
            Err(e) => refused(e.text()),
        },
{
    match result {
        Ok(clips) => Response::Clips { clips },
        Err(e) => failed(&e),
    }
}

fn clip_reply(result: Result<Clip>) -> (res: Response)
    ensures
        res@ == match result {
            Ok(clip) => ResponseView::Clip { clip: clip@ },
            Err(e) => refused(e.text()),
        },
{
    match result {
        Ok(clip) => Response::Clip { clip: Box::new(clip) },
        Err(e) => failed(&e),
    }
}

fn done_reply(result: Result<()>) -> (res: Response)
    ensures
        res@ == match result {
            Ok(_) => ResponseView::Done,
            Err(e) => refused(e.text()),
        },
{
    match result {
        Ok(_) => Response::Done,
        Err(e) => failed(&e),
    }
}

fn number_reply(result: Result<usize>) -> (res: Response)
    ensures
        res@ == match result {
            Ok(count) => ResponseView::Count { count },
            Err(e) => refused(e.text()),
        },
{
    match result {
        Ok(count) => Response::Count { count },
        Err(e) => failed(&e),
    }
}

/// Everything the daemon does, with a clipboard of its own for writes.
pub struct Service<B> {
    desk: Dispatcher,
    writer: B,
    started: std::time::Instant,
}

/// Whether a payload holds what a job says.
pub open spec fn carries(payload: Payload<'_>, job: JobView) -> bool {
    match payload {
        Payload::Text(text) => job == JobView::Text(text@),
        Payload::Image { bytes, mime } => job == (JobView::Image { bytes: bytes@, mime: mime@ }),
    }
}

/// Whether writing a job's content through a clipboard can give this outcome.
pub open spec fn wrote<B: ClipboardBackend>(
    writer: &mut B,
    job: JobView,
    outcome: clipboard::Result<()>,
) -> bool {
    exists|payload: Payload<'_>|
        carries(payload, job) && #[trigger] call_ensures(B::write, (writer, payload), outcome)
}

/// Whether a reply and a history are what copying a clip ends in: its content was
/// written through the clipboard, and what the clipboard made of it decides.
pub open spec fn copy_ended<B: ClipboardBackend>(
    writer: &mut B,
    mid: StoreView,
    id: i64,
    job: JobView,
    after: StoreView,
    response: ResponseView,
) -> bool {
    exists|outcome: clipboard::Result<()>, later: i64|
        wrote(writer, job, outcome) && #[trigger] copied(
            mid,
            after,
            id,
            write_failure(outcome),
            later,
            response,
        )
}

/// Whether a reply and a history are what a capture ends in: the clipboard was
/// read, and what it gave decides.
pub open spec fn capture_ended<B: ClipboardBackend>(
    writer: &mut B,
    mid: StoreView,
    cfg: ConfigView,
    after: StoreView,
    response: ResponseView,
) -> bool {
    exists|outcome: clipboard::Result<Option<NewClip>>, now: i64, later: i64|
        call_ensures(B::read_now, (writer,), outcome) && #[trigger] captured(
            mid,
            after,
            outcome,
            cfg,
            now,
            later,
            response,
        )
}

/// Whether a request is answered without the clipboard.
pub open spec fn replied(
    before: Dispatcher,
    req: Request,
    after: Dispatcher,
    response: ResponseView,
) -> bool {
    exists|now: i64, uptime_secs: u64| #[trigger]
        began(before, req, now, uptime_secs, after.store@, StepView::Reply(response))
}

/// Whether a request is answered with a turn at the clipboard, which is written or
/// read as the request asks.
pub open spec fn turned<B: ClipboardBackend>(
    writer: &mut B,
    before: Dispatcher,
    req: Request,
    after: Dispatcher,
    response: ResponseView,
) -> bool {
    exists|now: i64, uptime_secs: u64, mid: StoreView, step: StepView| #[trigger]
        began(before, req, now, uptime_secs, mid, step) && match step {
            StepView::Reply(_) => false,
            StepView::Write { id, job } => copy_ended(
                writer,
                mid,
                id,
                job,
                after.store@,
                response,
            ),
            StepView::Read => capture_ended(writer, mid, before.config@, after.store@, response),
        }
}

impl<B: ClipboardBackend> Service<B> {
    /// The history and its settings.
    pub closed spec fn view(&self) -> Dispatcher {
        self.desk
    }

    /// The clipboard in its present state.
    pub closed spec fn writer(&self) -> B {
        self.writer
    }

    pub fn new(store: Store, config: Config, writer: B, data_dir: String) -> (res: Self)
        ensures
            res.writer() == writer,
            exists|name: &'static str| #[trigger]
                call_ensures(B::name, (&writer,), name) && res@.backend_name@ == name@,
            res@.store == store,
            res@.config == config,
            res@.data_dir == data_dir,
            !res@.shutdown,
    {
        let name = writer.name();
        Service {
            desk: Dispatcher::new(store, config, name, data_dir),
            writer,
            started: clock_now(),
        }
    }

    pub fn is_shutting_down(&self) -> (res: bool)
        ensures
            res == self@.shutdown,
    {
        self.desk.shutdown
    }

    pub fn config(&self) -> (res: &Config)
        ensures
            *res == self@.config,
    {
        &self.desk.config
    }

    /// The history itself.
    pub fn store(&self) -> (res: &Store)
        ensures
            *res == self@.store,
    {
        &self.desk.store
    }

    /// Store a clip the watcher just observed.
    pub fn ingest(&mut self, clip: &NewClip) -> (res: Result<InsertOutcome>)
        requires
            old(self)@.store.wf(),
        ensures
            final(self)@.store.wf(),
            same_desk(old(self)@, final(self)@),
            final(self).writer() == old(self).writer(),
            final(self)@.shutdown == old(self)@.shutdown,
            journaled(old(self)@.store, final(self)@.store),
            final(self)@.store.full_text() ==> old(self)@.store.full_text(),
            keeps_index(clip@, old(self)@.config@) ==> final(self)@.store.full_text() == old(
                self,
            )@.store.full_text(),
            exists|now: i64, later: i64|
                final(self)@.store@ == #[trigger] ingested(
                    old(self)@.store@,
                    clip@,
                    old(self)@.config@,
                    now,
                    later,
                ) && outcome_of(old(self)@.store@, clip@, old(self)@.config@, now, res),
    {
        let now = unix_now();
        let later = unix_now();
        self.desk.ingest_at(clip, now, later)
    }

    /// Dispatch one request.
    #[verifier::rlimit(60)]
    #[verifier::spinoff_prover]
    pub fn handle(&mut self, req: Request) -> (res: Response)
        requires
            old(self)@.store.wf(),
        ensures
            final(self)@.store.wf(),
            same_desk(old(self)@, final(self)@),
            final(self)@.shutdown == (old(self)@.shutdown || req is Shutdown),
            journaled(old(self)@.store, final(self)@.store),
            final(self)@.store.full_text() ==> old(self)@.store.full_text(),
            !(req is CaptureNow) || old(self)@.config@.max_clip_bytes <= MAX_INDEXED_BYTES
                ==> final(self)@.store.full_text() == old(self)@.store.full_text(),
            (final(self).writer() == old(self).writer() && replied(
                old(self)@,
                req,
                final(self)@,
                res@,
            )) || (exists|w: &mut B|
                *w == old(self).writer() && *final(w) == final(self).writer()
                    && #[trigger] turned(w, old(self)@, req, final(self)@, res@)),
    {
        let ghost before = self.desk;
        let ghost clipboard_was = self.writer;
        let now = unix_now();
        let uptime = seconds_since(&self.started);
        let step = self.desk.begin(req, now, uptime);
        let ghost mid = self.desk;
        let ghost half = step@;
        assert(began(before, req, now, uptime, mid.store@, half));
        match step {
            Step::Reply(response) => {
                assert(replied(old(self)@, req, self@, response@));
                response
            },
            Step::Write { id, job } => {
                let payload = match &job {
                    Job::Text(text) => Payload::Text(text.as_str()),
                    Job::Image { bytes, mime } => Payload::Image {
                        bytes: bytes.as_slice(),
                        mime: mime.as_str(),
                    },
                };
                assert(carries(payload, job@));
                let outcome = self.writer.write(payload);
                let later = unix_now();
                let response = self.desk.finish_copy(id, outcome, later);
                proof {
                    law_changes_replay(before.store, mid.store, self.desk.store);
                    assert(copied(
                        mid.store@,
                        self.desk.store@,
                        id,
                        write_failure(outcome),
                        later,
                        response@,
                    ));
                    let w = choose|w: &mut B|
                        *w == clipboard_was && *final(w) == self.writer && #[trigger] call_ensures(
                            B::write,
                            (w, payload),
                            outcome,
                        );
                    assert(wrote(w, job@, outcome));
                    assert(copy_ended(w, mid.store@, id, job@, self.desk.store@, response@));
                    assert(turned(w, old(self)@, req, self@, response@));
                }
                response
            },
            Step::Read => {
                let outcome = self.writer.read_now();
                let then = unix_now();
                let later = unix_now();
                let response = self.desk.finish_capture(outcome, then, later);
                proof {
                    law_changes_replay(before.store, mid.store, self.desk.store);
                    assert(captured(
                        mid.store@,
                        self.desk.store@,
                        outcome,
                        before.config@,
                        then,
                        later,
                        response@,
                    ));
                    let w = choose|w: &mut B|
                        *w == clipboard_was && *final(w) == self.writer && #[trigger] call_ensures(
                            B::read_now,
                            (w,),
                            outcome,
                        );
                    assert(turned(w, old(self)@, req, self@, response@));
                }
                response
            },
        }
    }
}

/// A request that only looks leaves the history as it is.
pub proof fn law_reads_change_nothing(
    desk: Dispatcher,
    req: Request,
    now: i64,
    uptime_secs: u64,
    after: StoreView,
    step: StepView,
)
    requires
        began(desk, req, now, uptime_secs, after, step),
        req is Ping || req is Status || req is List || req is Search || req is Get
            || req is GetBytes || req is Pinboards || req is PinboardClips || req is Shutdown,
    ensures
        after == desk.store@,
        step is Reply,
{
}

/// No list of clips in a reply is longer than the upper bound on limits, however
/// long a page was asked for.
pub proof fn law_lists_are_bounded(
    desk: Dispatcher,
    req: Request,
    now: i64,
    uptime_secs: u64,
    after: StoreView,
    step: StepView,
)
    requires
        began(desk, req, now, uptime_secs, after, step),
        step is Reply,
        step->Reply_0 is Clips,
    ensures
        step->Reply_0->clips.len() <= MAX_LIMIT,
{
}

/// A request that names a missing clip is answered with an error and changes
/// nothing.
pub proof fn law_missing_clip_is_an_error(
    desk: Dispatcher,
    req: Request,
    id: i64,
    now: i64,
    uptime_secs: u64,
    after: StoreView,
    step: StepView,
)
    requires
        began(desk, req, now, uptime_secs, after, step),
        !has_id(desk.store@.rows, id),
        req == (Request::Get { id }) || req == (Request::GetBytes { id }) || req
            == (Request::Copy { id }) || req == (Request::Delete { id }) || req
            == (Request::Pin { id, pinned: true }) || req == (Request::Pin { id, pinned: false })
            || (req matches Request::PinboardAdd { name, id: other } && other == id),
    ensures
        after == desk.store@,
        step is Reply,
        step->Reply_0 is Error,
{
}

/// A clipboard write that failed is reported as an error, and the clip does not
/// count as used: the history is the same before and after.
pub proof fn law_failed_write_is_no_use(
    v: StoreView,
    after: StoreView,
    id: i64,
    message: Seq<char>,
    now: i64,
    response: ResponseView,
)
    requires
        copied(v, after, id, Some(message), now, response),
    ensures
        after == v,
        response == refused(message),
{
}

/// Storing something new never leaves more unprotected clips than the cap
/// allows, nor one that is older than the retention time.
pub proof fn law_ingest_respects_limits(
    v: StoreView,
    clip: NewClipView,
    cfg: ConfigView,
    now: i64,
    later: i64,
)
    requires
        v.offer(clip, cfg, now) is Add,
    ensures
        ({
            let after = ingested(v, clip, cfg, now, later);
            &&& crate::model::unprotected(after.rows, v.members) <= cfg.max_items
            &&& forall|row: RowView| #[trigger]
                after.rows.contains(row) && !crate::model::is_protected(v.members, row)
                    && cfg.retention_days > 0 ==> row.clip.created_at >= later - cfg.retention_days
                    * 86_400
        }),
{
    let change = v.offer(clip, cfg, now)->Add_0;
    crate::laws::law_prune_enforces_limits(v.apply(change), cfg, later);
}

/// A clip that was just stored is still there once the retention policy was
/// applied, as the most recent one, where the cap leaves room for one and the
/// clock did not jump past the retention time in between.
pub proof fn law_stored_clip_survives_its_prune(
    v: StoreView,
    clip: NewClipView,
    cfg: ConfigView,
    now: i64,
    later: i64,
)
    requires
        v.offer(clip, cfg, now) is Add,
        cfg.max_items >= 1,
        cfg.retention_days > 0 ==> now >= later - cfg.retention_days * 86_400,
    ensures
        ({
            let after = ingested(v, clip, cfg, now, later);
            &&& after.rows.len() > 0
            &&& after.rows.last() == v.new_row(clip, now)
        }),
{
    let change = v.offer(clip, cfg, now)->Add_0;
    law_prune_spares_the_latest(v.apply(change), cfg, later);
}

/// A clip that was known already, or is not stored, makes no other clip go.
pub proof fn law_only_new_clips_prune(
    v: StoreView,
    clip: NewClipView,
    cfg: ConfigView,
    now: i64,
    later: i64,
    id: i64,
)
    requires
        v.wf(),
        !(v.offer(clip, cfg, now) is Add),
    ensures
        ingested(v, clip, cfg, now, later).rows.len() == v.rows.len(),
        has_id(ingested(v, clip, cfg, now, later).rows, id) == has_id(v.rows, id),
{
    if let Offer::Bump(change) = v.offer(clip, cfg, now) {
        let k = hash_index(v.rows, clip.digest());
        let used = v.rows[k].clip.id;
        assert(has_id(v.rows, used));
        let i = id_index(v.rows, used);
        let after = v.apply(change).rows;
        assert(after.last().clip.id == used);
        if has_id(v.rows, id) {
            let j = id_index(v.rows, id);
            if j < i {
                assert(after[j] == v.rows[j]);
            } else if j > i {
                assert(after[j - 1] == v.rows[j]);
            } else {
                assert(after[after.len() - 1].clip.id == id);
            }
        }
        if has_id(after, id) {
            let j = id_index(after, id);
            if j < i {
                assert(v.rows[j] == after[j]);
            } else if j < after.len() - 1 {
                assert(v.rows[j + 1] == after[j]);
            }
        }
    }
}

/// Under every config as it is loaded, taking in a clip leaves full-text search at
/// work where it is.
pub proof fn law_loaded_configs_keep_the_index(clip: NewClipView, cfg: ConfigView)
    ensures
        keeps_index(clip, cfg.normalized()),
{
}

/// What the store must not keep leaves no trace: the history is the same before
/// and after.
pub proof fn law_refused_clip_leaves_no_trace(
    v: StoreView,
    clip: NewClipView,
    cfg: ConfigView,
    now: i64,
    later: i64,
)
    requires
        clip.concealed || clip.is_empty() || cfg.ignores(clip.source_app, clip.source_bundle_id),
    ensures
        ingested(v, clip, cfg, now, later) == v,
{
}

} // verus!
