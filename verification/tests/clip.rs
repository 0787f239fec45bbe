//! Clips: inference, digests, previews.

use pasteport::clip::{Clip, ClipKind, NewClip};

#[test]
fn infers_links() {
    assert_eq!(NewClip::text("https://example.com/x").kind, ClipKind::Link);
    assert_eq!(NewClip::text("mailto:a@b.co").kind, ClipKind::Link);
    // Bare scheme with no host is not a link.
    assert_eq!(NewClip::text("https://").kind, ClipKind::Text);
    // Prose that merely mentions a URL stays text.
    assert_eq!(
        NewClip::text("see https://example.com ok").kind,
        ClipKind::Text
    );
}

#[test]
fn infers_colors() {
    assert_eq!(NewClip::text("#ff00aa").kind, ClipKind::Color);
    assert_eq!(NewClip::text("#FFF").kind, ClipKind::Color);
    assert_eq!(NewClip::text("rgba(1,2,3,0.5)").kind, ClipKind::Color);
    assert_eq!(NewClip::text("#zzzzzz").kind, ClipKind::Text);
    assert_eq!(NewClip::text("#12345").kind, ClipKind::Text);
}

#[test]
fn digest_ignores_provenance_but_not_payload() {
    let a = NewClip::text("hello").with_source(Some("Safari".into()), None);
    let b = NewClip::text("hello").with_source(Some("Terminal".into()), None);
    let c = NewClip::text("goodbye");
    assert_eq!(a.digest(), b.digest());
    assert_ne!(a.digest(), c.digest());
}

#[test]
fn empty_detection_treats_whitespace_as_empty() {
    assert!(NewClip::text("   \n\t ").is_empty());
    assert!(!NewClip::text("x").is_empty());
    assert!(!NewClip::image(vec![1, 2, 3], "image/png").is_empty());
    assert!(NewClip::image(vec![], "image/png").is_empty());
}

#[test]
fn preview_truncates_on_char_boundaries() {
    let clip = Clip {
        id: 1,
        kind: ClipKind::Text,
        mime: "text/plain".into(),
        text: Some("émoji ➜ ✨ and a long tail of text".into()),
        bytes: None,
        byte_len: 10,
        source_app: None,
        source_bundle_id: None,
        hash: "h".into(),
        created_at: 0,
        last_used_at: 0,
        use_count: 1,
        pinned: false,
    };
    let p = clip.preview(10);
    assert_eq!(p.chars().count(), 10);
    assert!(p.ends_with('…'));
}

#[test]
fn preview_collapses_newlines() {
    let clip = Clip {
        id: 1,
        kind: ClipKind::Text,
        mime: "text/plain".into(),
        text: Some("line one\n\n   line two".into()),
        bytes: None,
        byte_len: 10,
        source_app: None,
        source_bundle_id: None,
        hash: "h".into(),
        created_at: 0,
        last_used_at: 0,
        use_count: 1,
        pinned: false,
    };
    assert_eq!(clip.preview(100), "line one line two");
}
