//! Serving requests.

use pasteport::clip::{Clip, ClipKind, NewClip};
use pasteport::clipboard::{ClipboardBackend, Error, Payload, Result as ClipResult};
use pasteport::config::Config;
use pasteport::protocol::{clips_of, Request, Response};
use pasteport::service::{clamp_limit, Dispatcher, Job, Service, Step, MAX_LIMIT, VERSION};
use pasteport::store::{InsertOutcome, Row, Store};

/// A clipboard we can script and inspect.
#[derive(Debug, Default)]
struct FakeClipboard {
    current: Option<NewClip>,
    writes: Vec<String>,
    image_writes: Vec<(Vec<u8>, String)>,
}

impl ClipboardBackend for FakeClipboard {
    fn name(&self) -> &'static str {
        "fake"
    }
    fn poll(&mut self) -> ClipResult<Option<NewClip>> {
        Ok(self.current.take())
    }
    fn read_now(&mut self) -> ClipResult<Option<NewClip>> {
        Ok(self.current.clone())
    }
    fn write(&mut self, payload: Payload<'_>) -> ClipResult<()> {
        match payload {
            Payload::Text(t) => self.writes.push(t.to_string()),
            Payload::Image { bytes, mime } => {
                self.image_writes.push((bytes.to_vec(), mime.to_string()))
            }
        }
        Ok(())
    }
}

/// A clipboard whose writes always fail.
#[derive(Debug)]
struct BrokenClipboard;

impl ClipboardBackend for BrokenClipboard {
    fn name(&self) -> &'static str {
        "broken"
    }
    fn poll(&mut self) -> ClipResult<Option<NewClip>> {
        Ok(None)
    }
    fn read_now(&mut self) -> ClipResult<Option<NewClip>> {
        Err(Error::ClipboardUnavailable)
    }
    fn write(&mut self, _payload: Payload<'_>) -> ClipResult<()> {
        Err(Error::ClipboardUnavailable)
    }
}

fn service_with<B: ClipboardBackend>(backend: B) -> Service<B> {
    let store = Store::open_in_memory().unwrap();
    Service::new(
        store,
        Config::default(),
        backend,
        "/tmp/pasteport-test".to_string(),
    )
}

fn service() -> Service<FakeClipboard> {
    service_with(FakeClipboard::default())
}

fn seed<B: ClipboardBackend>(svc: &mut Service<B>, texts: &[&str]) -> Vec<i64> {
    texts
        .iter()
        .map(|t| match svc.ingest(&NewClip::text(t)).unwrap() {
            InsertOutcome::Stored(c) | InsertOutcome::Deduped(c) => c.id,
            InsertOutcome::Skipped(r) => panic!("skipped: {}", r.as_str()),
        })
        .collect()
}

#[test]
fn ping_reports_the_version() {
    let mut svc = service();
    assert_eq!(
        svc.handle(Request::Ping),
        Response::Pong {
            version: VERSION.to_string()
        }
    );
}

#[test]
fn status_reports_backend_and_stats() {
    let mut svc = service();
    seed(&mut svc, &["a", "b"]);
    let Response::Status(report) = svc.handle(Request::Status) else {
        panic!("expected a status report");
    };
    assert_eq!(report.backend, "fake");
    assert_eq!(report.stats.total_clips, 2);
}

#[test]
fn list_and_search_return_clips() {
    let mut svc = service();
    seed(&mut svc, &["alpha text", "beta text", "https://example.com"]);

    let listed = svc.handle(Request::List {
        limit: 50,
        offset: 0,
        kind: None,
    });
    assert_eq!(clips_of(&listed).unwrap().len(), 3);

    let links = svc.handle(Request::List {
        limit: 50,
        offset: 0,
        kind: Some(ClipKind::Link),
    });
    assert_eq!(clips_of(&links).unwrap().len(), 1);

    let found = svc.handle(Request::Search {
        query: "beta".into(),
        limit: 10,
    });
    assert_eq!(clips_of(&found).unwrap().len(), 1);
}

#[test]
fn an_offset_counts_beside_a_kind() {
    let mut svc = service();
    seed(&mut svc, &["a", "b", "c"]);
    let listed = svc.handle(Request::List {
        limit: 10,
        offset: 1,
        kind: Some(ClipKind::Text),
    });
    let texts: Vec<&str> = clips_of(&listed)
        .unwrap()
        .iter()
        .map(|c| c.text.as_deref().unwrap())
        .collect();
    assert_eq!(texts, vec!["b", "a"]);
}

#[test]
fn status_names_the_backend() {
    let mut svc = service_with(BrokenClipboard);
    match svc.handle(Request::Status) {
        Response::Status(report) => assert_eq!(report.backend, "broken"),
        other => panic!("expected a status, got {other:?}"),
    }
}

#[test]
fn a_clip_just_stored_survives_its_own_prune() {
    let store = Store::open_in_memory().unwrap();
    let cfg = Config {
        max_items: 1,
        ..Config::default()
    };
    let mut desk = Dispatcher::new(store, cfg, "fake", "/tmp".to_string());
    desk.ingest_at(&NewClip::text("one"), 100, 100).unwrap();
    desk.ingest_at(&NewClip::text("two"), 101, 101).unwrap();
    let left = desk.store.recent(10, 0).unwrap();
    assert_eq!(left.len(), 1);
    assert_eq!(left[0].text.as_deref(), Some("two"));
    // A clip that is known already, or refused, makes none go.
    desk.ingest_at(&NewClip::text("two"), 102, 102).unwrap();
    desk.ingest_at(&NewClip::text("  "), 103, 103).unwrap();
    assert_eq!(desk.store.recent(10, 0).unwrap().len(), 1);
}

#[test]
fn limits_are_clamped_rather_than_trusted() {
    let mut svc = service();
    seed(&mut svc, &["one"]);
    // Zero would produce an empty page; huge would try to load everything.
    assert_eq!(clamp_limit(0), 1);
    assert_eq!(clamp_limit(usize::MAX), MAX_LIMIT);

    let resp = svc.handle(Request::List {
        limit: 0,
        offset: 0,
        kind: None,
    });
    assert_eq!(clips_of(&resp).unwrap().len(), 1);
}

#[test]
fn copy_writes_text_to_the_clipboard_and_bumps_recency() {
    let mut svc = service();
    let ids = seed(&mut svc, &["first", "second"]);

    let resp = svc.handle(Request::Copy { id: ids[0] });
    let Response::Clip { clip } = resp else {
        panic!("expected the clip back")
    };
    assert_eq!(clip.use_count, 2, "copying counts as a use");

    // It is now the most recent.
    let listed = svc.handle(Request::List {
        limit: 10,
        offset: 0,
        kind: None,
    });
    assert_eq!(clips_of(&listed).unwrap()[0].id, ids[0]);
}

#[test]
fn copy_writes_image_bytes_for_binary_clips() {
    let mut svc = service();
    let payload = vec![0x89, 0x50, 0x4e, 0x47];
    let stored = svc
        .ingest(&NewClip::image(payload.clone(), "image/png"))
        .unwrap();
    let id = match stored {
        InsertOutcome::Stored(c) => c.id,
        other => panic!("expected a stored clip, got {other:?}"),
    };

    assert!(!svc.handle(Request::Copy { id }).is_error());
}

#[test]
fn copy_reports_a_clipboard_failure_instead_of_lying() {
    let mut svc = service_with(BrokenClipboard);
    let ids = seed(&mut svc, &["text"]);
    let resp = svc.handle(Request::Copy { id: ids[0] });
    assert!(resp.is_error(), "a failed clipboard write must be reported");

    // And the clip was not marked as used.
    let Response::Clip { clip } = svc.handle(Request::Get { id: ids[0] }) else {
        panic!("expected the clip")
    };
    assert_eq!(clip.use_count, 1);
}

#[test]
fn get_bytes_encodes_base64_and_is_none_for_text() {
    let mut svc = service();
    let payload = vec![0, 1, 2];
    let id = match svc
        .ingest(&NewClip::image(payload.clone(), "image/png"))
        .unwrap()
    {
        InsertOutcome::Stored(c) => c.id,
        other => panic!("{other:?}"),
    };
    let Response::Bytes { base64 } = svc.handle(Request::GetBytes { id }) else {
        panic!("expected bytes")
    };
    assert_eq!(base64.as_deref(), Some("AAEC"));

    let text_ids = seed(&mut svc, &["plain"]);
    let Response::Bytes { base64 } = svc.handle(Request::GetBytes { id: text_ids[0] }) else {
        panic!("expected bytes")
    };
    assert_eq!(base64, None);
}

#[test]
fn pin_delete_and_clear_behave() {
    let mut svc = service();
    let ids = seed(&mut svc, &["keep", "drop"]);

    assert!(!svc
        .handle(Request::Pin {
            id: ids[0],
            pinned: true
        })
        .is_error());
    assert!(!svc.handle(Request::Delete { id: ids[1] }).is_error());

    let Response::Count { count } = svc.handle(Request::Clear {
        include_pinned: false,
    }) else {
        panic!("expected a count")
    };
    assert_eq!(count, 0, "the only remaining clip is pinned");

    let Response::Count { count } = svc.handle(Request::Clear {
        include_pinned: true,
    }) else {
        panic!("expected a count")
    };
    assert_eq!(count, 1);
}

#[test]
fn pinboard_operations_work_end_to_end() {
    let mut svc = service();
    let ids = seed(&mut svc, &["snippet"]);

    assert!(!svc
        .handle(Request::PinboardCreate {
            name: "work".into()
        })
        .is_error());
    assert!(!svc
        .handle(Request::PinboardAdd {
            name: "work".into(),
            id: ids[0]
        })
        .is_error());

    let Response::Pinboards { pinboards } = svc.handle(Request::Pinboards) else {
        panic!("expected pinboards")
    };
    assert_eq!(pinboards.len(), 1);
    assert_eq!(pinboards[0].clip_count, 1);

    let listed = svc.handle(Request::PinboardClips {
        name: "work".into(),
        limit: 10,
    });
    assert_eq!(clips_of(&listed).unwrap().len(), 1);

    assert!(!svc
        .handle(Request::PinboardRemove {
            name: "work".into(),
            id: ids[0]
        })
        .is_error());
    assert!(!svc
        .handle(Request::PinboardDelete {
            name: "work".into()
        })
        .is_error());
    assert!(svc
        .handle(Request::PinboardClips {
            name: "work".into(),
            limit: 10
        })
        .is_error());
}

#[test]
fn missing_ids_produce_errors_not_panics() {
    let mut svc = service();
    for req in [
        Request::Get { id: 999 },
        Request::GetBytes { id: 999 },
        Request::Copy { id: 999 },
        Request::Pin {
            id: 999,
            pinned: true,
        },
        Request::Delete { id: 999 },
        Request::PinboardAdd {
            name: "nope".into(),
            id: 999,
        },
    ] {
        assert!(
            svc.handle(req.clone()).is_error(),
            "{req:?} should be an error"
        );
    }
}

#[test]
fn capture_now_stores_the_current_clipboard() {
    let store = Store::open_in_memory().unwrap();
    let backend = FakeClipboard {
        current: Some(NewClip::text("on the clipboard")),
        ..Default::default()
    };
    let mut svc = Service::new(
        store,
        Config::default(),
        backend,
        "/tmp/pasteport-test".to_string(),
    );

    let Response::Clip { clip } = svc.handle(Request::CaptureNow) else {
        panic!("expected the captured clip")
    };
    assert_eq!(clip.text.as_deref(), Some("on the clipboard"));
}

#[test]
fn capture_now_on_an_empty_clipboard_is_an_error() {
    let mut svc = service();
    assert!(svc.handle(Request::CaptureNow).is_error());
}

#[test]
fn concealed_clips_are_never_ingested() {
    let mut svc = service();
    let outcome = svc
        .ingest(&NewClip::text("hunter2").concealed(true))
        .unwrap();
    assert!(matches!(outcome, InsertOutcome::Skipped(_)));
    let listed = svc.handle(Request::List {
        limit: 10,
        offset: 0,
        kind: None,
    });
    assert!(clips_of(&listed).unwrap().is_empty());
}

#[test]
fn ingest_prunes_to_the_configured_cap() {
    let store = Store::open_in_memory().unwrap();
    let config = Config {
        max_items: 3,
        retention_days: 0,
        ..Config::default()
    };
    let mut svc = Service::new(
        store,
        config,
        FakeClipboard::default(),
        "/tmp/pasteport-test".to_string(),
    );

    for i in 0..10 {
        svc.ingest(&NewClip::text(&format!("clip {i}"))).unwrap();
    }
    let listed = svc.handle(Request::List {
        limit: 100,
        offset: 0,
        kind: None,
    });
    assert_eq!(
        clips_of(&listed).unwrap().len(),
        3,
        "history must respect max_items"
    );
}

#[test]
fn shutdown_sets_the_flag() {
    let mut svc = service();
    assert!(!svc.is_shutting_down());
    assert_eq!(svc.handle(Request::Shutdown), Response::Done);
    assert!(svc.is_shutting_down());
}

#[test]
fn copies_hand_the_content_to_the_clipboard() {
    let store = Store::open_in_memory().unwrap();
    let mut desk = Dispatcher::new(store, Config::default(), "fake", "/tmp".to_string());
    desk.ingest_at(&NewClip::text("words"), 10, 10).unwrap();
    desk.ingest_at(&NewClip::image(vec![7, 8], "image/png"), 11, 11)
        .unwrap();

    let Step::Write { id, job } = desk.begin(Request::Copy { id: 1 }, 12, 0) else {
        panic!("expected a write")
    };
    assert_eq!(id, 1);
    assert!(matches!(job, Job::Text(t) if t == "words"));
    let Step::Write { job, .. } = desk.begin(Request::Copy { id: 2 }, 12, 0) else {
        panic!("expected a write")
    };
    assert!(matches!(job, Job::Image { bytes, mime } if bytes == vec![7, 8] && mime == "image/png"));

    // Nothing counts as used until the write has gone through.
    let Response::Clip { clip } = desk.finish_copy(1, Ok(()), 13) else {
        panic!("expected the clip")
    };
    assert_eq!((clip.use_count, clip.last_used_at), (2, 13));
    let failed = desk.finish_copy(1, Err(Error::ClipboardUnavailable), 14);
    assert_eq!(failed, Response::error("the system clipboard is unavailable"));
}

#[test]
fn captures_report_what_became_of_the_clip() {
    let store = Store::open_in_memory().unwrap();
    let mut desk = Dispatcher::new(store, Config::default(), "fake", "/tmp".to_string());
    assert!(matches!(
        desk.begin(Request::CaptureNow, 1, 0),
        Step::Read
    ));
    assert_eq!(
        desk.finish_capture(Ok(None), 1, 1),
        Response::error("the clipboard is empty")
    );
    assert_eq!(
        desk.finish_capture(Ok(Some(NewClip::text(" "))), 1, 1),
        Response::error("clipboard contents skipped: empty")
    );
    let first = desk.finish_capture(Ok(Some(NewClip::text("x"))), 1, 1);
    assert!(matches!(first, Response::Clip { .. }));
    let again = desk.finish_capture(Ok(Some(NewClip::text("x"))), 2, 2);
    assert!(matches!(again, Response::Clip { clip } if clip.use_count == 2));
}

#[test]
fn status_carries_the_uptime_and_settings() {
    let store = Store::open_in_memory().unwrap();
    let mut desk = Dispatcher::new(store, Config::default(), "fake", "/data".to_string());
    let Step::Reply(Response::Status(report)) = desk.begin(Request::Status, 0, 77) else {
        panic!("expected a status report")
    };
    assert_eq!(report.uptime_secs, 77);
    assert_eq!(report.poll_interval_ms, 400);
    assert_eq!(report.data_dir, "/data");
    assert_eq!(report.version, VERSION);
}

#[test]
fn a_clip_without_content_cannot_be_copied() {
    let row = Row {
        clip: Clip {
            id: 1,
            kind: ClipKind::Image,
            mime: "image/png".into(),
            text: None,
            bytes: None,
            byte_len: 0,
            source_app: None,
            source_bundle_id: None,
            hash: "h".into(),
            created_at: 0,
            last_used_at: 0,
            use_count: 1,
            pinned: false,
        },
        bytes: None,
        seq: 1,
    };
    let store = Store::load(vec![row], Vec::new(), Vec::new(), 1, 0).unwrap();
    let mut svc = Service::new(
        store,
        Config::default(),
        FakeClipboard::default(),
        "/tmp".to_string(),
    );
    assert_eq!(
        svc.handle(Request::Copy { id: 1 }),
        Response::error("clip has no content to place on the clipboard")
    );
}

#[test]
fn lists_are_capped_however_long_a_page_was_asked_for() {
    let mut svc = service();
    for i in 0..1_005 {
        svc.ingest(&NewClip::text(&format!("clip {i}"))).unwrap();
    }
    let listed = svc.handle(Request::List {
        limit: usize::MAX,
        offset: 0,
        kind: None,
    });
    assert_eq!(clips_of(&listed).unwrap().len(), MAX_LIMIT);
    assert_eq!(clips_of(&Response::Done), None);
}
