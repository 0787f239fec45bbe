//! The command line: requests and output.

use pasteport::cli::{
    build_request, clear_question, format_bytes, format_duration, is_yes, parse_kind, render,
    BoardCommand, Command,
};
use pasteport::clip::{Clip, ClipKind};
use pasteport::protocol::{Request, Response, StatusReport};
use pasteport::store::{Pinboard, Stats};

#[test]
fn parses_clip_kinds_in_both_spellings() {
    assert_eq!(parse_kind("link"), Some(ClipKind::Link));
    assert_eq!(parse_kind("rich-text"), Some(ClipKind::RichText));
    assert_eq!(parse_kind("rich_text"), Some(ClipKind::RichText));
    assert_eq!(parse_kind("  IMAGE  "), Some(ClipKind::Image));
    assert_eq!(parse_kind("nonsense"), None);
}

#[test]
fn search_joins_multiple_words() {
    let req = build_request(&Command::Search {
        query: vec!["two".into(), "words".into()],
        limit: 5,
    });
    assert_eq!(
        req,
        Request::Search {
            query: "two words".into(),
            limit: 5
        }
    );
}

#[test]
fn pin_and_unpin_map_to_one_request() {
    assert_eq!(
        build_request(&Command::Pin { id: 3 }),
        Request::Pin {
            id: 3,
            pinned: true
        }
    );
    assert_eq!(
        build_request(&Command::Unpin { id: 3 }),
        Request::Pin {
            id: 3,
            pinned: false
        }
    );
}

#[test]
fn clear_all_asks_for_pinned_too() {
    assert_eq!(
        build_request(&Command::Clear {
            all: true,
            yes: true
        }),
        Request::Clear {
            include_pinned: true
        }
    );
    assert_eq!(
        build_request(&Command::Clear {
            all: false,
            yes: true
        }),
        Request::Clear {
            include_pinned: false
        }
    );
}

#[test]
fn formats_durations_readably() {
    assert_eq!(format_duration(45), "45s");
    assert_eq!(format_duration(90), "1m 30s");
    assert_eq!(format_duration(3_700), "1h 1m");
    assert_eq!(format_duration(90_000), "1d 1h");
}

#[test]
fn formats_byte_counts_readably() {
    assert_eq!(format_bytes(512), "512 B");
    assert_eq!(format_bytes(2048), "2.0 KiB");
    assert_eq!(format_bytes(5 * 1024 * 1024), "5.0 MiB");
    assert_eq!(format_bytes(3 * 1024 * 1024 * 1024), "3.00 GiB");
}

#[test]
fn byte_counts_round_like_floating_point_does() {
    let reference = |bytes: i64| {
        let kib = 1024.0;
        let b = bytes as f64;
        if bytes < 1024 {
            format!("{bytes} B")
        } else if b < kib * kib {
            format!("{:.1} KiB", b / kib)
        } else if b < kib * kib * kib {
            format!("{:.1} MiB", b / (kib * kib))
        } else {
            format!("{:.2} GiB", b / (kib * kib * kib))
        }
    };
    for n in 1000..20_000i64 {
        assert_eq!(format_bytes(n), reference(n), "{n}");
    }
    let mut n: i64 = 1;
    for k in 0..62u32 {
        for d in [-3i64, -1, 0, 1, 2, 5] {
            let m = n + d + (n / 3) * i64::from(k % 3);
            assert_eq!(format_bytes(m), reference(m), "{m}");
        }
        n *= 2;
    }
    for n in [i64::MIN, -1, 0, i64::MAX, i64::MAX - 511, i64::MAX - 512] {
        assert_eq!(format_bytes(n), reference(n), "{n}");
    }
    // Ties go to the even digit.
    assert_eq!(format_bytes(1280), "1.2 KiB");
    assert_eq!(format_bytes(1792), "1.8 KiB");
}

fn clip(id: i64, pinned: bool, text: Option<&str>) -> Clip {
    Clip {
        id,
        kind: if text.is_some() {
            ClipKind::Text
        } else {
            ClipKind::Image
        },
        mime: "image/png".into(),
        text: text.map(|t| t.to_string()),
        bytes: None,
        byte_len: 12,
        source_app: None,
        source_bundle_id: None,
        hash: "h".into(),
        created_at: 0,
        last_used_at: 0,
        use_count: 1,
        pinned,
    }
}

#[test]
fn clip_tables_align_ids_and_kinds() {
    let list = Command::List {
        limit: 20,
        offset: 0,
        kind: None,
    };
    let shown = render(
        &list,
        &Response::Clips {
            clips: vec![clip(7, true, Some("one\ntwo")), clip(1234, false, None)],
        },
    );
    assert_eq!(
        shown.out,
        "*   7  text        one two\n 1234  image       Image (12 bytes)\n"
    );
    assert_eq!(shown.err, "");
    assert!(!shown.failed);
    assert_eq!(
        render(&list, &Response::Clips { clips: vec![] }).out,
        "No clips.\n"
    );
}

#[test]
fn replies_read_as_their_commands_expect() {
    let get = Command::Get { id: 1 };
    let one = |text| Response::Clip {
        clip: Box::new(clip(1, false, text)),
    };
    assert_eq!(render(&get, &one(Some("a\nb"))).out, "a\nb\n");
    let image = render(&get, &one(None));
    assert_eq!(image.out, "Image (12 bytes)\n");
    assert_eq!(
        image.err,
        "(this clip is image/png, 12 bytes; use --json to fetch it)\n"
    );
    assert_eq!(
        render(&Command::Copy { id: 1 }, &one(Some("x"))).out,
        "Copied clip 1: x\n"
    );
    assert_eq!(
        render(&Command::Capture, &one(Some("x"))).out,
        "Captured clip 1: x\n"
    );
    assert_eq!(
        render(&Command::Pin { id: 1 }, &one(Some("x"))).out,
        "Pinned clip 1\n"
    );
    assert_eq!(
        render(&Command::Unpin { id: 1 }, &one(Some("x"))).out,
        "Unpinned clip 1\n"
    );
    assert_eq!(
        render(&Command::Prune, &one(Some("x"))).out,
        "  1  text        x\n"
    );
    let clear = Command::Clear {
        all: false,
        yes: true,
    };
    assert_eq!(
        render(&clear, &Response::Count { count: 3 }).out,
        "Deleted 3 clips.\n"
    );
    assert_eq!(
        render(&Command::Prune, &Response::Count { count: 0 }).out,
        "Pruned 0 clips.\n"
    );
    assert_eq!(render(&get, &Response::Count { count: 2 }).out, "2\n");
    assert_eq!(render(&get, &Response::Done).out, "Done.\n");
    assert_eq!(
        render(&get, &Response::Bytes { base64: None }).out,
        "(no binary payload)\n"
    );
    assert_eq!(
        render(
            &get,
            &Response::Bytes {
                base64: Some("AAEC".into())
            }
        )
        .out,
        "AAEC\n"
    );
    assert_eq!(
        render(
            &get,
            &Response::Pong {
                version: "0.1.0".into()
            }
        )
        .out,
        "pasteportd 0.1.0\n"
    );
    let failed = render(&get, &Response::error("clip 1 not found"));
    assert!(failed.failed);
    assert_eq!(failed.out, "");
    assert_eq!(failed.err, "Error: clip 1 not found\n");
}

#[test]
fn pinboards_are_listed_with_their_sizes() {
    let command = Command::Board(BoardCommand::List);
    let board = |name: &str, clip_count| Pinboard {
        id: 1,
        name: name.into(),
        position: 0,
        clip_count,
    };
    let shown = render(
        &command,
        &Response::Pinboards {
            pinboards: vec![board("work", 1), board("a name that is rather too long", 2)],
        },
    );
    assert_eq!(
        shown.out,
        "work                     1 clip\na name that is rather too long 2 clips\n"
    );
    assert_eq!(
        render(&command, &Response::Pinboards { pinboards: vec![] }).out,
        "No pinboards. Create one with: pasteport board create <name>\n"
    );
}

#[test]
fn status_is_printed_line_by_line() {
    let report = StatusReport {
        version: "0.1.0".into(),
        backend: "fake".into(),
        uptime_secs: 90,
        poll_interval_ms: 400,
        stats: Stats {
            total_clips: 3,
            pinned_clips: 1,
            pinboards: 2,
            total_bytes: 2048,
            oldest_created_at: None,
            full_text_search: false,
        },
        data_dir: "/tmp/p".into(),
    };
    assert_eq!(
        render(&Command::Status, &Response::Status(Box::new(report))).out,
        "Pasteport 0.1.0\n  backend        fake\n  uptime         1m 30s\n  poll interval  400 ms\n  \
         data dir       /tmp/p\n  clips          3 (1 pinned)\n  pinboards      2\n  \
         stored         2.0 KiB\n  search         substring\n"
    );
}

#[test]
fn the_remaining_commands_map_to_requests() {
    assert_eq!(
        build_request(&Command::List {
            limit: 1,
            offset: 2,
            kind: Some("Rich-Text".into())
        }),
        Request::List {
            limit: 1,
            offset: 2,
            kind: Some(ClipKind::RichText)
        }
    );
    assert_eq!(
        build_request(&Command::List {
            limit: 1,
            offset: 2,
            kind: Some("nonsense".into())
        }),
        Request::List {
            limit: 1,
            offset: 2,
            kind: None
        }
    );
    assert_eq!(
        build_request(&Command::Remove { id: 4 }),
        Request::Delete { id: 4 }
    );
    assert_eq!(build_request(&Command::Capture), Request::CaptureNow);
    assert_eq!(
        build_request(&Command::Board(BoardCommand::Show {
            name: "w".into(),
            limit: 9
        })),
        Request::PinboardClips {
            name: "w".into(),
            limit: 9
        }
    );
    assert_eq!(
        build_request(&Command::Board(BoardCommand::Add {
            name: "w".into(),
            id: 9
        })),
        Request::PinboardAdd {
            name: "w".into(),
            id: 9
        }
    );
}

#[test]
fn clearing_asks_first() {
    assert!(clear_question(true).contains("ALL clips"));
    assert!(clear_question(false).contains("all unpinned clips"));
    for yes in ["y", "Y\n", " yes ", "YES"] {
        assert!(is_yes(yes), "{yes:?}");
    }
    for no in ["", "n", "yeah", "y y"] {
        assert!(!is_yes(no), "{no:?}");
    }
}
