//! The history across operations: order, the journal, loading, limits.

use pasteport::clip::{time_or_seconds, Clip, ClipKind, NewClip};
use pasteport::config::Config;
use pasteport::error::Error;
use pasteport::model::Member;
use pasteport::search::{escape_like, fts_expression, like_pattern_for, tokenize};
use pasteport::store::{
    stored_kind, wants_vacuum, BoardRow, Change, InsertOutcome, Row, Store,
};

fn store() -> Store {
    Store::open_in_memory().unwrap()
}

fn add(s: &mut Store, text: &str, now: i64) -> i64 {
    match s.insert_at(&NewClip::text(text), &Config::default(), now).unwrap() {
        InsertOutcome::Stored(c) | InsertOutcome::Deduped(c) => c.id,
        InsertOutcome::Skipped(r) => panic!("skipped: {}", r.as_str()),
    }
}

fn texts(clips: &[Clip]) -> Vec<&str> {
    clips.iter().map(|c| c.text.as_deref().unwrap()).collect()
}

fn row(id: i64, hash: &str, seq: i64) -> Row {
    Row {
        clip: Clip {
            id,
            kind: ClipKind::Text,
            mime: "text/plain".into(),
            text: Some(format!("row {id}")),
            bytes: None,
            byte_len: 5,
            source_app: None,
            source_bundle_id: None,
            hash: hash.into(),
            created_at: 10,
            last_used_at: 10,
            use_count: 1,
            pinned: false,
        },
        bytes: None,
        seq,
    }
}

#[test]
fn digests_are_blake3_over_the_content() {
    let clip = NewClip::text("hello");
    assert_eq!(
        clip.digest(),
        blake3::hash(b"text/plain\0text\0hello\0").to_hex().to_string()
    );
    let image = NewClip::image(vec![1, 2], "image/png");
    assert_eq!(
        image.digest(),
        blake3::hash(b"image/png\0image\0\0\x01\x02").to_hex().to_string()
    );
}

#[test]
fn times_read_as_dates_where_the_calendar_has_them() {
    let clip = row(1, "h", 1).clip;
    assert_eq!(clip.created_at_rfc3339(), "1970-01-01T00:00:10Z");
    assert_eq!(clip.last_used_at_rfc3339(), "1970-01-01T00:00:10Z");
    let far = Clip {
        created_at: i64::MAX,
        ..row(1, "h", 1).clip
    };
    assert_eq!(far.created_at_rfc3339(), "9223372036854775807");
    assert_eq!(time_or_seconds(None, -3), "-3");
}

#[test]
fn search_hits_put_pinned_clips_first() {
    let mut s = store();
    let a = add(&mut s, "apple pie", 1);
    add(&mut s, "apple apple apple", 2);
    add(&mut s, "banana", 3);
    s.set_pinned(a, true).unwrap();
    let hits = s.search("apple", 10).unwrap();
    assert_eq!(texts(&hits), vec!["apple pie", "apple apple apple"]);
    assert_eq!(s.search("apple", 1).unwrap().len(), 1);
    assert!(s.has_full_text_search());
}

#[test]
fn search_folds_diacritics_and_needs_every_word() {
    let mut s = store();
    add(&mut s, "Crème brûlée recipe", 1);
    assert_eq!(s.search("creme bru", 10).unwrap().len(), 1);
    assert!(s.search("creme pie", 10).unwrap().is_empty());
}

#[test]
fn ranked_hits_go_by_pin_then_level_then_recency() {
    let mut s = store();
    let a = add(&mut s, "a", 1);
    let b = add(&mut s, "b", 2);
    let c = add(&mut s, "c", 3);
    let d = add(&mut s, "d", 4);
    s.set_pinned(a, true).unwrap();
    // Unknown ids are left out.
    let hits = vec![(b, 2), (c, 1), (999, 0), (d, 2), (a, 9)];
    assert_eq!(texts(&s.rank_hits(&hits, 10)), vec!["a", "c", "d", "b"]);
    assert_eq!(texts(&s.rank_hits(&hits, 2)), vec!["a", "c"]);
}

#[test]
fn search_follows_the_index_and_falls_back_to_a_scan() {
    let mut s = store();
    let a = add(&mut s, "alpha one", 1);
    let b = add(&mut s, "alphabet", 2);
    add(&mut s, "beta", 3);
    let search = |answer| texts(&s.search_answered("alpha", answer, 10).unwrap()).join(",");
    assert_eq!(search(Some(Ok(vec![(a, 1), (b, 2)]))), "alpha one,alphabet");
    assert_eq!(search(Some(Ok(vec![]))), "");
    assert_eq!(
        search(Some(Err(Error::Sqlite("no such table".into())))),
        "alphabet,alpha one"
    );
    assert_eq!(search(None), "alphabet,alpha one");
    // A query without words lists everything, whatever the index said.
    let all = s.search_answered(" *( ", Some(Ok(vec![(a, 1)])), 10).unwrap();
    assert_eq!(texts(&all), vec!["beta", "alphabet", "alpha one"]);
}

#[test]
fn search_fails_only_beyond_the_limits() {
    let mut s = store();
    // Without a text there is nothing to compare.
    assert!(s.search_like(&"x".repeat(60_000), 10).unwrap().is_empty());
    add(&mut s, "a AND \"b* (NEAR) ^c", 1);
    for query in ["a AND \"b*", "NEAR(", "^c", "\"", "* OR *", "a\0b", ""] {
        assert!(s.search(query, 10).is_ok(), "{query:?} must not fail");
        assert!(s.search_like(query, 10).is_ok(), "{query:?} must not fail");
    }
    assert!(s.search(&"word ".repeat(2_000), 10).is_ok());
    assert!(s.search_answered(&"%".repeat(24_999), None, 10).is_ok());
    assert!(s.search_like(&"%".repeat(24_999), 10).unwrap().is_empty());
    assert!(s.search_like(&"x".repeat(49_998), 10).unwrap().is_empty());
    assert!(matches!(s.search_like(&"x".repeat(49_999), 10), Err(Error::Sqlite(_))));
    assert!(matches!(s.search_like(&"%".repeat(25_000), 10), Err(Error::Sqlite(_))));
}

#[test]
fn kinds_are_paged_like_everything_else() {
    let mut s = store();
    for (i, text) in ["a", "https://x.io", "b", "c"].iter().enumerate() {
        add(&mut s, text, i as i64);
    }
    assert_eq!(texts(&s.by_kind_from(ClipKind::Text, 10, 1).unwrap()), vec!["b", "a"]);
    assert_eq!(texts(&s.by_kind_from(ClipKind::Text, 1, 1).unwrap()), vec!["b"]);
    assert!(s.by_kind_from(ClipKind::Text, 10, 3).unwrap().is_empty());
}

#[test]
fn a_cap_without_bound_removes_nothing() {
    let mut s = store();
    for i in 0..3 {
        add(&mut s, &format!("clip {i}"), i);
    }
    let cfg = Config {
        max_items: usize::MAX,
        retention_days: 0,
        ..Config::default()
    };
    assert_eq!(s.prune_at(&cfg, 10).unwrap(), 0);
    assert_eq!(s.recent(10, 0).unwrap().len(), 3);
}

#[test]
fn null_characters_in_text_are_told_apart() {
    assert_ne!(NewClip::text("a\0").digest(), NewClip::text("a").digest());
    assert_ne!(NewClip::text("a\0b").digest(), NewClip::text("a\0c").digest());
}

#[test]
fn substring_search_is_literal_and_ignores_case() {
    let mut s = store();
    add(&mut s, "100% sure", 1);
    add(&mut s, "100 percent", 2);
    add(&mut s, "under_score", 3);
    add(&mut s, "underXscore", 4);
    add(&mut s, "back\\slash", 5);
    assert_eq!(texts(&s.search_like("0% S", 10).unwrap()), vec!["100% sure"]);
    assert_eq!(texts(&s.search_like("r_s", 10).unwrap()), vec!["under_score"]);
    assert_eq!(texts(&s.search_like("k\\s", 10).unwrap()), vec!["back\\slash"]);
    assert_eq!(s.search_like("under", 1).unwrap().len(), 1);
    assert!(s.search_like("absent", 10).unwrap().is_empty());
}

#[test]
fn queries_become_quoted_words() {
    let words: Vec<String> = tokenize("a AND \"b* foo_bar-baz")
        .iter()
        .map(|w| w.iter().collect())
        .collect();
    assert_eq!(words, vec!["a", "AND", "b", "foo_bar-baz"]);
    assert_eq!(
        fts_expression(&tokenize("two words")),
        "\"two\" AND \"words\"*"
    );
    assert_eq!(
        escape_like("50%_\\").iter().collect::<String>(),
        "50\\%\\_\\\\"
    );
    assert_eq!(like_pattern_for("a%"), "%a\\%%");
}

#[test]
fn pages_continue_each_other() {
    let mut s = store();
    for i in 0..7 {
        add(&mut s, &format!("clip {i}"), i);
    }
    s.set_pinned(2, true).unwrap();
    let all = s.recent(10, 0).unwrap();
    let mut joined = s.recent(3, 0).unwrap();
    joined.extend(s.recent(4, 3).unwrap());
    assert_eq!(all, joined);
    assert_eq!(all[0].id, 2);
    assert!(s.recent(10, 7).unwrap().is_empty());
    let mut later = s.recent(2, 1).unwrap();
    later.extend(s.recent(3, 3).unwrap());
    assert_eq!(later, s.recent(5, 1).unwrap());
    // However large an offset is, it skips that many.
    assert!(s.recent(10, usize::MAX).unwrap().is_empty());
    assert_eq!(texts(&s.pinned(10).unwrap()), vec!["clip 1"]);
}

#[test]
fn every_change_is_noted_once() {
    let mut s = store();
    let a = add(&mut s, "a", 1);
    let b = add(&mut s, "b", 2);
    assert_eq!(s.take_changes().len(), 2);
    assert!(s.take_changes().is_empty());

    add(&mut s, "a", 3);
    s.touch_at(b, 4).unwrap();
    s.set_pinned(a, true).unwrap();
    s.create_pinboard_at("work", 5).unwrap();
    s.create_pinboard_at("work", 6).unwrap();
    s.add_to_pinboard("work", a).unwrap();
    s.add_to_pinboard("work", a).unwrap();
    s.remove_from_pinboard("work", a).unwrap();
    s.delete(b).unwrap();
    s.delete_pinboard("work").unwrap();
    s.clear(true).unwrap();
    let noted = s.take_changes();
    assert_eq!(noted.len(), 9);
    assert!(matches!(noted[0], Change::Use { id, last_used_at: 3, use_count: 2, seq: 3 } if id == a));
    assert!(matches!(noted[1], Change::Use { id, .. } if id == b));
    assert!(matches!(noted[2], Change::Pin { pinned: true, .. }));
    assert!(matches!(&noted[3], Change::AddBoard(board) if board.name == "work"));
    assert!(matches!(noted[4], Change::AddMember(Member { position: 0, .. })));
    assert!(matches!(noted[5], Change::DropMember { .. }));
    assert!(matches!(noted[6], Change::Drop(id) if id == b));
    assert!(matches!(noted[7], Change::DropBoard(1)));
    assert!(matches!(noted[8], Change::Drop(id) if id == a));
}

#[test]
fn survives_reopen_on_disk() {
    let cfg = Config::default();
    let mut clips = Vec::new();
    let mut boards = Vec::new();
    {
        let mut s = store();
        s.insert(&NewClip::text("persisted"), &cfg).unwrap();
        s.create_pinboard("kept").unwrap();
        for change in s.take_changes() {
            match change {
                Change::Add(row) => clips.push(row),
                Change::AddBoard(board) => boards.push(board),
                other => panic!("unexpected change {other:?}"),
            }
        }
    }
    let s = Store::load(clips, boards, Vec::new(), 1, 1).unwrap();
    let clips = s.recent(10, 0).unwrap();
    assert_eq!(clips.len(), 1);
    assert_eq!(clips[0].text.as_deref(), Some("persisted"));
    assert_eq!(s.list_pinboards().unwrap().len(), 1);
    assert_eq!(s.search("persisted", 10).unwrap().len(), 1);
}

#[test]
fn a_loaded_history_goes_on_where_it_stopped() {
    let members = vec![Member {
        board_id: 4,
        clip_id: 7,
        position: 0,
    }];
    let boards = vec![BoardRow {
        id: 4,
        name: "kept".into(),
        position: 2,
        created_at: 1,
    }];
    let mut s = Store::load(vec![row(7, "h7", 3), row(5, "h5", 9)], boards, members, 20, 4).unwrap();
    assert_eq!(texts(&s.recent(10, 0).unwrap()), vec!["row 5", "row 7"]);
    assert_eq!(s.search("row", 10).unwrap().len(), 2);
    assert_eq!(s.pinboard_by_name("kept").unwrap().clip_count, 1);
    assert!(s.take_changes().is_empty());
    // Ids and sequence numbers are never reused.
    assert_eq!(add(&mut s, "next", 1), 21);
    let Change::Add(added) = s.take_changes().pop().unwrap() else {
        panic!("expected an addition")
    };
    assert_eq!(added.seq, 10);
    assert_eq!(s.create_pinboard_at("new", 1).unwrap().id, 5);
    assert_eq!(s.pinboard_by_name("new").unwrap().position, 3);
}

#[test]
fn equal_numbers_load_in_the_order_they_come_in() {
    let board = |id: i64, name: &str| BoardRow {
        id,
        name: name.into(),
        position: 2,
        created_at: 1,
    };
    let member = |clip_id: i64| Member {
        board_id: 1,
        clip_id,
        position: 3,
    };
    let mut s = Store::load(
        vec![row(1, "a", 4), row(2, "b", 5), row(3, "c", 5), row(4, "d", 5)],
        vec![board(1, "first"), board(2, "second")],
        vec![member(2), member(1)],
        4,
        2,
    )
    .unwrap();
    assert_eq!(texts(&s.recent(10, 0).unwrap()), vec!["row 4", "row 3", "row 2", "row 1"]);
    let names: Vec<String> = s.list_pinboards().unwrap().into_iter().map(|b| b.name).collect();
    assert_eq!(names, vec!["first", "second"]);
    assert_eq!(texts(&s.pinboard_clips("first", 10).unwrap()), vec!["row 2", "row 1"]);
    // The last number is kept, so what comes next is one more.
    add(&mut s, "next", 1);
    let Change::Add(added) = s.take_changes().pop().unwrap() else {
        panic!("expected an addition")
    };
    assert_eq!(added.seq, 6);
}

#[test]
fn full_text_search_stays_at_work() {
    let mut s = store();
    let works = |s: &Store| {
        assert!(s.has_full_text_search());
        // A scan for the query as it stands would find nothing.
        s.search("green RED", 10).unwrap().len()
    };
    let a = add(&mut s, "red paint, greener than grass", 1);
    let b = add(&mut s, "green and red", 2);
    assert_eq!(works(&s), 1);
    assert_eq!(s.search("red gre", 10).unwrap().len(), 2);
    s.delete(a).unwrap();
    assert_eq!(works(&s), 1);
    s.set_pinned(b, true).unwrap();
    s.clear(false).unwrap();
    assert_eq!(works(&s), 1);
    let one = Config {
        max_items: 1,
        ..Config::default()
    };
    add(&mut s, "red green", 3);
    add(&mut s, "green red", 4);
    assert_eq!(s.prune_at(&one, 5).unwrap(), 1);
    assert_eq!(works(&s), 2);
    s.clear(true).unwrap();
    assert_eq!(works(&s), 0);
    add(&mut s, "red and green", 6);
    assert_eq!(works(&s), 1);
}

#[test]
fn a_page_of_nothing_needs_no_scan() {
    let mut s = store();
    add(&mut s, "something", 1);
    let long = "x".repeat(60_000);
    assert!(s.search_like(&long, 0).unwrap().is_empty());
    assert!(s.search_answered(&long, None, 0).unwrap().is_empty());
    assert!(s.search_like(&long, 1).is_err());
    // The index takes what a scan does not, however many words there are.
    assert!(s.search(&long, 1).unwrap().is_empty());
    assert_eq!(s.search(&"something ".repeat(20_000), 1).unwrap().len(), 1);
    assert!(s.search(&"- ".repeat(30_000), 1).is_ok());
}

#[test]
fn inconsistent_tables_are_refused() {
    let refused = |clips: Vec<Row>, members: Vec<Member>, last| {
        let Err(e) = Store::load(clips, Vec::new(), members, last, 0) else {
            panic!("expected a refusal")
        };
        assert_eq!(
            e.message(),
            "database error: the history tables are inconsistent"
        );
    };
    refused(vec![row(1, "a", 1), row(1, "b", 2)], Vec::new(), 1);
    refused(vec![row(1, "a", 1), row(2, "a", 2)], Vec::new(), 2);
    refused(vec![row(1, "a", 0), row(2, "b", i64::MIN)], Vec::new(), 2);
    refused(vec![row(3, "a", 1)], Vec::new(), 2);
    let stray = Member {
        board_id: 1,
        clip_id: 1,
        position: 0,
    };
    refused(vec![row(1, "a", 1)], vec![stray], 1);
}

#[test]
fn exhausted_counters_are_errors_that_change_nothing() {
    let mut s = Store::load(vec![row(1, "a", i64::MAX)], Vec::new(), Vec::new(), 1, i64::MAX).unwrap();
    assert!(matches!(s.touch_at(1, 5), Err(Error::CounterExhausted)));
    let outcome = s.insert_at(&NewClip::text("x"), &Config::default(), 5);
    assert!(matches!(outcome, Err(Error::CounterExhausted)));
    assert!(matches!(
        s.create_pinboard_at("b", 5),
        Err(Error::CounterExhausted)
    ));
    assert_eq!(s.recent(10, 0).unwrap().len(), 1);
    assert!(s.take_changes().is_empty());
    assert_eq!(
        Error::CounterExhausted.message(),
        "a history counter has reached its largest value"
    );
}

#[test]
fn sizes_that_do_not_sum_are_an_error() {
    let big = |id: i64| {
        let mut r = row(id, &format!("h{id}"), id);
        r.clip.byte_len = i64::MAX;
        r
    };
    let s = Store::load(vec![big(1), big(2)], Vec::new(), Vec::new(), 2, 0).unwrap();
    assert_eq!(
        s.stats().unwrap_err().message(),
        "database error: integer overflow"
    );
    let s = Store::load(vec![big(1)], Vec::new(), Vec::new(), 1, 0).unwrap();
    let stats = s.stats().unwrap();
    assert_eq!(stats.total_bytes, i64::MAX);
    assert_eq!(stats.oldest_created_at, Some(10));
}

#[test]
fn pruning_by_age_ignores_absurd_settings() {
    let mut s = store();
    add(&mut s, "old", 0);
    let cfg = Config {
        retention_days: u64::MAX,
        ..Config::default()
    };
    assert_eq!(s.prune_at(&cfg, 1_000_000_000).unwrap(), 0);
    let cfg = Config {
        retention_days: 1,
        ..Config::default()
    };
    assert_eq!(s.prune_at(&cfg, 86_400).unwrap(), 0, "exactly the limit stays");
    assert_eq!(s.prune_at(&cfg, 86_401).unwrap(), 1);
}

#[test]
fn pruning_settles_and_spares_the_most_recent() {
    let mut s = store();
    for i in 0..6 {
        add(&mut s, &format!("c{i}"), 100);
    }
    s.touch_at(1, 200).unwrap();
    s.set_pinned(2, true).unwrap();
    let cfg = Config {
        max_items: 2,
        retention_days: 0,
        ..Config::default()
    };
    assert_eq!(s.prune_at(&cfg, 300).unwrap(), 3);
    assert_eq!(texts(&s.recent(10, 0).unwrap()), vec!["c1", "c0", "c5"]);
    assert_eq!(s.prune_at(&cfg, 300).unwrap(), 0);
}

#[test]
fn unpinning_undoes_pinning() {
    let mut s = store();
    let a = add(&mut s, "a", 1);
    add(&mut s, "b", 2);
    let before = s.recent(10, 0).unwrap();
    assert!(s.set_pinned(a, true).unwrap().pinned);
    assert!(!s.set_pinned(a, false).unwrap().pinned);
    assert_eq!(s.recent(10, 0).unwrap(), before);
}

#[test]
fn errors_read_well() {
    assert_eq!(Error::ClipNotFound(-4).message(), "clip -4 not found");
    assert_eq!(
        Error::PinboardNotFound("a \"b\"".to_string()).message(),
        "pinboard \"a \\\"b\\\"\" not found"
    );
    assert_eq!(
        Error::ClipTooLarge {
            limit: 10,
            actual: 20
        }
        .message(),
        "refusing to store a clip larger than 10 bytes (got 20)"
    );
}

#[test]
fn small_helpers() {
    assert_eq!(stored_kind("rich_text"), ClipKind::RichText);
    assert_eq!(stored_kind("hologram"), ClipKind::Text);
    assert!(wants_vacuum(1_000, 2_000));
    assert!(!wants_vacuum(500, 2_000));
    assert!(!wants_vacuum(1_000, 1_024));
}
