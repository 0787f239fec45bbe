//! The history: storing, finding, pruning, pinboards.

use pasteport::clip::{Clip, ClipKind, NewClip};
use pasteport::config::Config;
use pasteport::error::Error;
use pasteport::model::SkipReason;
use pasteport::store::{InsertOutcome, Store};

fn store() -> Store {
    Store::open_in_memory().unwrap()
}

fn stored(outcome: InsertOutcome) -> Clip {
    match outcome {
        InsertOutcome::Stored(c) | InsertOutcome::Deduped(c) => c,
        InsertOutcome::Skipped(r) => panic!("unexpectedly skipped: {}", r.as_str()),
    }
}

#[test]
fn stores_and_reads_back() {
    let mut s = store();
    let cfg = Config::default();
    let clip = stored(s.insert(&NewClip::text("hello world"), &cfg).unwrap());
    assert_eq!(clip.text.as_deref(), Some("hello world"));
    assert_eq!(clip.use_count, 1);
    assert!(!clip.pinned);
    assert_eq!(s.recent(10, 0).unwrap().len(), 1);
}

#[test]
fn identical_content_dedupes_and_bumps() {
    let mut s = store();
    let cfg = Config::default();
    s.insert_at(&NewClip::text("same"), &cfg, 1_000).unwrap();
    let second = s.insert_at(&NewClip::text("same"), &cfg, 2_000).unwrap();

    assert!(matches!(second, InsertOutcome::Deduped(_)));
    let clip = stored(second);
    assert_eq!(clip.use_count, 2);
    assert_eq!(clip.last_used_at, 2_000);
    assert_eq!(
        clip.created_at, 1_000,
        "dedupe must preserve first-seen time"
    );
    assert_eq!(s.recent(10, 0).unwrap().len(), 1);
}

#[test]
fn skips_concealed_empty_and_ignored() {
    let mut s = store();
    let cfg = Config::default();

    let concealed = s
        .insert(&NewClip::text("hunter2").concealed(true), &cfg)
        .unwrap();
    assert!(matches!(
        concealed,
        InsertOutcome::Skipped(SkipReason::Concealed)
    ));

    let empty = s.insert(&NewClip::text("  \n "), &cfg).unwrap();
    assert!(matches!(empty, InsertOutcome::Skipped(SkipReason::Empty)));

    let vault = NewClip::text("vault entry").with_source(
        Some("1Password".into()),
        Some("com.1password.1password".into()),
    );
    let ignored = s.insert(&vault, &cfg).unwrap();
    assert!(matches!(
        ignored,
        InsertOutcome::Skipped(SkipReason::IgnoredSource)
    ));

    assert!(
        s.recent(10, 0).unwrap().is_empty(),
        "nothing sensitive should be stored"
    );
}

#[test]
fn enforces_size_limit() {
    let mut s = store();
    let cfg = Config {
        max_clip_bytes: 1024,
        ..Config::default()
    };
    let big = NewClip::text(&"x".repeat(2048));
    assert!(matches!(
        s.insert(&big, &cfg).unwrap(),
        InsertOutcome::Skipped(SkipReason::TooLarge)
    ));
}

#[test]
fn honours_capture_images_toggle() {
    let mut s = store();
    let cfg = Config {
        capture_images: false,
        ..Config::default()
    };
    let img = NewClip::image(vec![1, 2, 3, 4], "image/png");
    assert!(matches!(
        s.insert(&img, &cfg).unwrap(),
        InsertOutcome::Skipped(SkipReason::ImagesDisabled)
    ));
}

#[test]
fn image_bytes_round_trip_but_stay_out_of_list_queries() {
    let mut s = store();
    let cfg = Config::default();
    let payload = vec![0x89, 0x50, 0x4e, 0x47, 9, 9, 9];
    let clip = stored(
        s.insert(&NewClip::image(payload.clone(), "image/png"), &cfg)
            .unwrap(),
    );

    assert_eq!(s.clip_bytes(clip.id).unwrap(), Some(payload));
    assert!(s.recent(10, 0).unwrap()[0].bytes.is_none());
}

#[test]
fn pinning_floats_to_top_and_survives_clear() {
    let mut s = store();
    let cfg = Config::default();
    let first = stored(s.insert_at(&NewClip::text("old"), &cfg, 1_000).unwrap());
    s.insert_at(&NewClip::text("new"), &cfg, 2_000).unwrap();

    s.set_pinned(first.id, true).unwrap();
    assert_eq!(s.recent(10, 0).unwrap()[0].id, first.id);

    let removed = s.clear(false).unwrap();
    assert_eq!(removed, 1);
    let left = s.recent(10, 0).unwrap();
    assert_eq!(left.len(), 1);
    assert_eq!(left[0].id, first.id);

    s.clear(true).unwrap();
    assert!(s.recent(10, 0).unwrap().is_empty());
}

#[test]
fn search_finds_by_word() {
    let mut s = store();
    let cfg = Config::default();
    s.insert(&NewClip::text("the quick brown fox"), &cfg)
        .unwrap();
    s.insert(&NewClip::text("unrelated content"), &cfg).unwrap();

    let hits = s.search("brown", 10).unwrap();
    assert_eq!(hits.len(), 1);
    assert!(hits[0].text.as_deref().unwrap().contains("brown"));
}

#[test]
fn search_supports_prefix_matching() {
    let mut s = store();
    let cfg = Config::default();
    s.insert(&NewClip::text("deployment checklist"), &cfg)
        .unwrap();
    assert_eq!(s.search("deploy", 10).unwrap().len(), 1);
}

#[test]
fn search_treats_operators_as_literals() {
    let mut s = store();
    let cfg = Config::default();
    s.insert(&NewClip::text("alpha beta"), &cfg).unwrap();

    // None of these may error, whatever FTS would make of them.
    for q in [
        "alpha AND",
        "\"unbalanced",
        "alpha*(",
        "NEAR(",
        "^",
        "*",
        "-",
    ] {
        let _ = s.search(q, 10).unwrap();
    }
    assert_eq!(s.search("alpha beta", 10).unwrap().len(), 1);
}

#[test]
fn search_with_blank_query_returns_recent() {
    let mut s = store();
    let cfg = Config::default();
    s.insert(&NewClip::text("something"), &cfg).unwrap();
    assert_eq!(s.search("   ", 10).unwrap().len(), 1);
}

#[test]
fn like_fallback_matches_the_fts_path() {
    let mut s = store();
    let cfg = Config::default();
    s.insert(&NewClip::text("fallback path works"), &cfg)
        .unwrap();
    assert_eq!(s.search_like("fallback", 10).unwrap().len(), 1);
    // Wildcards in the query must not widen the match.
    assert!(s.search_like("%", 10).unwrap().is_empty());
}

#[test]
fn search_index_stays_in_sync_after_delete() {
    let mut s = store();
    let cfg = Config::default();
    let clip = stored(
        s.insert(&NewClip::text("ephemeral secret note"), &cfg)
            .unwrap(),
    );
    assert_eq!(s.search("ephemeral", 10).unwrap().len(), 1);

    s.delete(clip.id).unwrap();
    assert!(
        s.search("ephemeral", 10).unwrap().is_empty(),
        "deleted text must not remain searchable"
    );
}

#[test]
fn prune_respects_age_and_cap_but_never_pinned() {
    let mut s = store();
    let cfg = Config {
        retention_days: 7,
        max_items: 100,
        ..Config::default()
    };
    let now = 10_000_000;
    let old = now - 30 * 86_400;

    let ancient = stored(s.insert_at(&NewClip::text("ancient"), &cfg, old).unwrap());
    let ancient_pinned = stored(
        s.insert_at(&NewClip::text("ancient but pinned"), &cfg, old)
            .unwrap(),
    );
    s.set_pinned(ancient_pinned.id, true).unwrap();
    s.insert_at(&NewClip::text("fresh"), &cfg, now).unwrap();

    // Pinning bumps nothing, so backdate last_used_at too via prune_at's clock.
    let removed = s.prune_at(&cfg, now).unwrap();
    assert_eq!(removed, 1);
    assert!(matches!(s.get(ancient.id), Err(Error::ClipNotFound(_))));
    assert!(s.get(ancient_pinned.id).is_ok());
}

#[test]
fn prune_enforces_max_items() {
    let mut s = store();
    let cfg = Config {
        retention_days: 0,
        max_items: 3,
        ..Config::default()
    };
    for i in 0..10 {
        s.insert_at(&NewClip::text(&format!("clip {i}")), &cfg, 1_000 + i)
            .unwrap();
    }
    let removed = s.prune_at(&cfg, 2_000).unwrap();
    assert_eq!(removed, 7);

    let left = s.recent(10, 0).unwrap();
    assert_eq!(left.len(), 3);
    // The survivors are the most recent ones.
    assert_eq!(left[0].text.as_deref(), Some("clip 9"));
}

#[test]
fn prune_keeps_pinboard_members() {
    let mut s = store();
    let cfg = Config {
        retention_days: 0,
        max_items: 1,
        ..Config::default()
    };
    let keep = stored(s.insert_at(&NewClip::text("keep me"), &cfg, 1_000).unwrap());
    s.create_pinboard("snippets").unwrap();
    s.add_to_pinboard("snippets", keep.id).unwrap();
    for i in 0..5 {
        s.insert_at(&NewClip::text(&format!("filler {i}")), &cfg, 2_000 + i)
            .unwrap();
    }

    s.prune_at(&cfg, 3_000).unwrap();
    assert!(s.get(keep.id).is_ok(), "pinboard members are never pruned");
}

#[test]
fn pinboards_manage_membership() {
    let mut s = store();
    let cfg = Config::default();
    let a = stored(s.insert(&NewClip::text("snippet a"), &cfg).unwrap());
    let b = stored(s.insert(&NewClip::text("snippet b"), &cfg).unwrap());

    s.create_pinboard("work").unwrap();
    // Creating twice is idempotent, not an error.
    s.create_pinboard("work").unwrap();
    assert_eq!(s.list_pinboards().unwrap().len(), 1);

    s.add_to_pinboard("work", a.id).unwrap();
    s.add_to_pinboard("work", b.id).unwrap();
    s.add_to_pinboard("work", b.id).unwrap();
    assert_eq!(s.pinboard_clips("work", 10).unwrap().len(), 2);
    assert_eq!(s.pinboard_by_name("work").unwrap().clip_count, 2);

    s.remove_from_pinboard("work", a.id).unwrap();
    assert_eq!(s.pinboard_clips("work", 10).unwrap().len(), 1);

    assert!(matches!(
        s.add_to_pinboard("work", 9_999),
        Err(Error::ClipNotFound(9_999))
    ));
    assert!(matches!(
        s.pinboard_clips("nope", 10),
        Err(Error::PinboardNotFound(_))
    ));
}

#[test]
fn deleting_a_clip_removes_its_pinboard_rows() {
    let mut s = store();
    let cfg = Config::default();
    let clip = stored(s.insert(&NewClip::text("temp"), &cfg).unwrap());
    s.create_pinboard("board").unwrap();
    s.add_to_pinboard("board", clip.id).unwrap();

    s.delete(clip.id).unwrap();
    assert_eq!(s.pinboard_by_name("board").unwrap().clip_count, 0);
}

#[test]
fn missing_ids_report_not_found() {
    let mut s = store();
    assert!(matches!(s.get(1), Err(Error::ClipNotFound(1))));
    assert!(matches!(s.touch(1), Err(Error::ClipNotFound(1))));
    assert!(matches!(s.delete(1), Err(Error::ClipNotFound(1))));
    assert!(matches!(s.set_pinned(1, true), Err(Error::ClipNotFound(1))));
    assert!(matches!(s.clip_bytes(1), Err(Error::ClipNotFound(1))));
}

#[test]
fn stats_reflect_contents() {
    let mut s = store();
    let cfg = Config::default();
    let a = stored(s.insert(&NewClip::text("aaa"), &cfg).unwrap());
    s.insert(&NewClip::text("bbbb"), &cfg).unwrap();
    s.set_pinned(a.id, true).unwrap();
    s.create_pinboard("b").unwrap();

    let st = s.stats().unwrap();
    assert_eq!(st.total_clips, 2);
    assert_eq!(st.pinned_clips, 1);
    assert_eq!(st.pinboards, 1);
    assert_eq!(st.total_bytes, 7);
    assert!(st.oldest_created_at.is_some());
}

#[test]
fn recent_pages_with_offset() {
    let mut s = store();
    let cfg = Config::default();
    for i in 0..5 {
        s.insert_at(&NewClip::text(&format!("c{i}")), &cfg, 1_000 + i)
            .unwrap();
    }
    let page = s.recent(2, 2).unwrap();
    assert_eq!(page.len(), 2);
    assert_eq!(page[0].text.as_deref(), Some("c2"));
}

#[test]
fn filters_by_kind() {
    let mut s = store();
    let cfg = Config::default();
    s.insert(&NewClip::text("https://example.com"), &cfg)
        .unwrap();
    s.insert(&NewClip::text("#aabbcc"), &cfg).unwrap();
    s.insert(&NewClip::text("just words"), &cfg).unwrap();

    assert_eq!(s.by_kind(ClipKind::Link, 10).unwrap().len(), 1);
    assert_eq!(s.by_kind(ClipKind::Color, 10).unwrap().len(), 1);
    assert_eq!(s.by_kind(ClipKind::Text, 10).unwrap().len(), 1);
}

#[test]
fn touch_bumps_recency() {
    let mut s = store();
    let cfg = Config::default();
    let first = stored(s.insert_at(&NewClip::text("first"), &cfg, 1_000).unwrap());
    s.insert_at(&NewClip::text("second"), &cfg, 2_000).unwrap();
    assert_eq!(s.recent(10, 0).unwrap()[0].text.as_deref(), Some("second"));

    s.touch(first.id).unwrap();
    assert_eq!(s.recent(10, 0).unwrap()[0].id, first.id);
}

#[test]
fn touch_reorders_even_within_the_same_second() {
    // Regression: ordering used to key off last_used_at, which has
    // one-second resolution. Copying an older clip in the same second as
    // the newest one left it stuck below, so "paste from history moves it to
    // the top" visibly failed. Ordering keys off `seq` for this reason.
    let mut s = store();
    let cfg = Config::default();
    let now = 1_700_000_000;

    let first = stored(s.insert_at(&NewClip::text("older"), &cfg, now).unwrap());
    let second = stored(s.insert_at(&NewClip::text("newer"), &cfg, now).unwrap());
    assert_eq!(s.recent(10, 0).unwrap()[0].id, second.id);

    s.touch(first.id).unwrap();
    let order: Vec<i64> = s.recent(10, 0).unwrap().iter().map(|c| c.id).collect();
    assert_eq!(
        order,
        vec![first.id, second.id],
        "the touched clip must lead"
    );
}

#[test]
fn dedupe_reorders_within_the_same_second_too() {
    let mut s = store();
    let cfg = Config::default();
    let now = 1_700_000_000;

    let older = stored(s.insert_at(&NewClip::text("recopied"), &cfg, now).unwrap());
    s.insert_at(&NewClip::text("something else"), &cfg, now)
        .unwrap();

    // Copying the first thing again must float it back to the top.
    s.insert_at(&NewClip::text("recopied"), &cfg, now).unwrap();
    assert_eq!(s.recent(10, 0).unwrap()[0].id, older.id);
}
