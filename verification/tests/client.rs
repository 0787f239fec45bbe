//! The window's requests and replies.

use pasteport::clip::{Clip, ClipKind};
use pasteport::client::{
    key_action, read_clips, read_done, read_status, summarize, window_title, ClientError, Engine,
    Key, KeyAction,
};
use pasteport::protocol::{Request, Response, StatusReport};
use pasteport::store::Stats;

fn engine() -> Engine {
    Engine::new(b"/tmp/daemon.sock".to_vec())
}

fn clip(id: i64, pinned: bool) -> Clip {
    Clip {
        id,
        kind: ClipKind::Text,
        mime: "text/plain".into(),
        text: Some(format!("clip {id}")),
        bytes: None,
        byte_len: 6,
        source_app: None,
        source_bundle_id: None,
        hash: "h".into(),
        created_at: 0,
        last_used_at: 0,
        use_count: 1,
        pinned,
    }
}

fn report() -> StatusReport {
    StatusReport {
        version: "0.1.0".into(),
        backend: "fake".into(),
        uptime_secs: 90,
        poll_interval_ms: 400,
        stats: Stats {
            total_clips: 3,
            pinned_clips: 1,
            pinboards: 0,
            total_bytes: 2048,
            oldest_created_at: Some(1),
            full_text_search: true,
        },
        data_dir: "/tmp/p".into(),
    }
}

#[test]
fn a_blank_query_lists_and_any_other_searches() {
    assert_eq!(
        engine().clips("  \t", 200),
        Request::List {
            limit: 200,
            offset: 0,
            kind: None
        }
    );
    assert_eq!(
        engine().clips(" needle ", 200),
        Request::Search {
            query: " needle ".into(),
            limit: 200
        }
    );
    assert_eq!(engine().socket_path(), b"/tmp/daemon.sock");
}

#[test]
fn the_other_requests() {
    assert_eq!(engine().status(), Request::Status);
    assert_eq!(engine().copy(3), Request::Copy { id: 3 });
    assert_eq!(
        engine().set_pinned(3, true),
        Request::Pin {
            id: 3,
            pinned: true
        }
    );
    assert_eq!(engine().delete(3), Request::Delete { id: 3 });
}

#[test]
fn replies_are_read() {
    let clips = read_clips(Response::Clips {
        clips: vec![clip(1, false)],
    })
    .unwrap();
    assert_eq!(clips.len(), 1);
    assert!(matches!(
        read_clips(Response::error("nope")),
        Err(ClientError::Refused(m)) if m == "nope"
    ));
    assert!(matches!(
        read_clips(Response::Done),
        Err(ClientError::Unexpected(Response::Done))
    ));
    assert_eq!(
        read_status(Response::Status(Box::new(report()))).unwrap(),
        report()
    );
    assert!(read_status(Response::Done).is_err());
    assert!(read_done(Response::Done).is_ok());
    assert!(read_done(Response::Count { count: 1 }).is_ok());
    assert!(read_done(Response::error("no")).is_err());
}

#[test]
fn window_texts() {
    assert_eq!(summarize(&Vec::new()), "No clips match.");
    assert_eq!(
        summarize(&vec![clip(1, true), clip(2, false), clip(3, true)]),
        "3 clips · 2 pinned"
    );
    assert_eq!(window_title(&report()), "Pasteport 0.1.0 — 3 clips");
}

#[test]
fn keys() {
    assert_eq!(key_action(Key::Escape, false, None), KeyAction::Close);
    assert_eq!(key_action(Key::P, true, Some(4)), KeyAction::Pin(Some(4)));
    assert_eq!(key_action(Key::P, false, Some(4)), KeyAction::Pass);
    assert_eq!(
        key_action(Key::Delete, false, Some(4)),
        KeyAction::Delete(Some(4))
    );
    assert_eq!(key_action(Key::Other, true, Some(4)), KeyAction::Pass);
}
