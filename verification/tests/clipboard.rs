//! Platform clipboards: helpers, readings, change tracking, backoff.

use pasteport::clip::{ClipKind, NewClip};
use pasteport::clipboard::{is_concealed, ClipboardBackend, Error, Payload, Result};
use pasteport::linux::{
    detect_tool, helper_result, run_ok, LinuxClipboard, LinuxTool, Reader, Reading, Session,
};
use pasteport::macos::{
    begin_reading, mime_to_pasteboard_type, write_type, MacOsClipboard, PasteReading, TYPE_PNG,
    TYPE_TIFF, TYPE_UTF8,
};
use pasteport::watcher::{wait_ms, Watcher};
use std::sync::atomic::Ordering;

#[test]
fn tool_capabilities() {
    assert!(LinuxTool::WlClipboard.supports_images());
    assert!(LinuxTool::Xclip.supports_images());
    assert!(!LinuxTool::Xsel.supports_images());
}

#[test]
fn xsel_refuses_images_rather_than_writing_garbage() {
    let cb = LinuxClipboard::with_tool(LinuxTool::Xsel);
    let err = cb
        .write_command(Payload::Image {
            bytes: &[1, 2, 3],
            mime: "image/png",
        })
        .expect_err("xsel cannot carry images");
    assert!(matches!(err, Error::UnsupportedContent { .. }));
}

#[test]
fn run_ok_swallows_failures() {
    // What `false` and `true` exit with.
    let failed = helper_result(
        "false",
        false,
        "exit status: 1".to_string(),
        Vec::new(),
        &Vec::new(),
    );
    assert!(run_ok(failed).is_none());
    let fine = helper_result(
        "true",
        true,
        "exit status: 0".to_string(),
        Vec::new(),
        &Vec::new(),
    );
    assert!(run_ok(fine).is_some());
}

#[test]
fn a_failed_helper_reports_its_trimmed_stderr() {
    let err = helper_result(
        "xclip",
        false,
        "exit status: 1".to_string(),
        b"ignored".to_vec(),
        &b"  no such target\n".to_vec(),
    )
    .unwrap_err();
    assert_eq!(
        err.message(),
        "clipboard helper xclip failed with status exit status: 1: no such target"
    );
}

#[test]
fn clipboard_errors_read_well() {
    assert_eq!(
        Error::UnsupportedPlatform("plan9".to_string()).message(),
        "Pasteport has no clipboard backend for plan9"
    );
    assert!(Error::NoHelperTool.message().contains("sudo apt install wl-clipboard xclip"));
    assert_eq!(
        Error::HelperSpawn {
            tool: "xsel".to_string(),
            reason: "not found".to_string()
        }
        .message(),
        "could not run clipboard helper xsel: not found"
    );
    assert_eq!(
        Error::ClipboardUnavailable.message(),
        "the system clipboard is unavailable"
    );
    assert_eq!(
        Error::UnsupportedContent {
            mime: "image/png".to_string()
        }
        .message(),
        "clipboard contained image/png, which Pasteport cannot represent"
    );
}

fn session(wayland: bool, wl: bool, xclip: bool, xsel: bool) -> Session {
    Session {
        wayland,
        wl_paste: wl,
        wl_copy: wl,
        xclip,
        xsel,
    }
}

#[test]
fn helpers_are_preferred_by_session_type() {
    assert_eq!(
        detect_tool(&session(true, true, true, true)),
        Some(LinuxTool::WlClipboard)
    );
    assert_eq!(
        detect_tool(&session(true, false, true, true)),
        Some(LinuxTool::Xclip)
    );
    assert_eq!(
        detect_tool(&session(false, true, true, true)),
        Some(LinuxTool::Xclip)
    );
    assert_eq!(
        detect_tool(&session(false, true, false, true)),
        Some(LinuxTool::Xsel)
    );
    assert_eq!(
        detect_tool(&session(false, true, false, false)),
        Some(LinuxTool::WlClipboard)
    );
    // wl-paste without wl-copy is not enough.
    let half = Session {
        wl_copy: false,
        ..session(true, true, false, false)
    };
    assert_eq!(detect_tool(&half), None);
    assert!(matches!(LinuxClipboard::new(&half), Err(Error::NoHelperTool)));
    let cb = LinuxClipboard::new(&session(false, false, true, false)).unwrap();
    assert_eq!(cb.tool(), LinuxTool::Xclip);
    assert_eq!(cb.name(), "linux-xclip");
}

/// Runs a reading against scripted answers, noting every command line.
fn read_with(
    tool: LinuxTool,
    answer: &dyn Fn(&str) -> Option<Vec<u8>>,
    asked: &mut Vec<String>,
) -> Option<NewClip> {
    let mut reader = Reader::start(tool);
    loop {
        let command = reader.command();
        let line = format!("{} {}", command.program, command.args.join(" "));
        let out = answer(&line);
        asked.push(line);
        match reader.answer(out) {
            Reading::More(next) => reader = next,
            Reading::Done(clip) => return clip,
        }
    }
}

#[test]
fn concealed_clipboards_are_never_read() {
    let mut asked = Vec::new();
    let clip = read_with(
        LinuxTool::WlClipboard,
        &|line| {
            if line.contains("--list-types") {
                Some(b"text/plain\nx-kde-passwordManagerHint\n".to_vec())
            } else {
                Some(b"hunter2".to_vec())
            }
        },
        &mut asked,
    )
    .unwrap();
    assert!(clip.concealed);
    assert_eq!(clip.text, None);
    assert_eq!(clip.bytes, None);
    assert_eq!(clip.mime, "application/x-concealed");
    assert_eq!(asked, vec!["wl-paste --list-types".to_string()]);
}

#[test]
fn images_come_before_text_and_empty_ones_are_passed_over() {
    let mut asked = Vec::new();
    let clip = read_with(
        LinuxTool::Xclip,
        &|line| {
            if line.ends_with("TARGETS") {
                Some(b"image/png\r\nimage/tiff\n text/plain \n\n".to_vec())
            } else if line.contains("image/png") {
                Some(Vec::new())
            } else if line.contains("image/tiff") {
                Some(vec![1, 2, 3])
            } else {
                None
            }
        },
        &mut asked,
    )
    .unwrap();
    assert_eq!(clip.kind, ClipKind::Image);
    assert_eq!(clip.mime, "image/tiff");
    assert_eq!(clip.bytes, Some(vec![1, 2, 3]));
    assert_eq!(
        asked,
        vec![
            "xclip -selection clipboard -o -t TARGETS".to_string(),
            "xclip -selection clipboard -t image/png -o".to_string(),
            "xclip -selection clipboard -t image/tiff -o".to_string(),
        ]
    );
}

#[test]
fn wayland_text_falls_back_to_whatever_is_there() {
    let mut asked = Vec::new();
    let clip = read_with(
        LinuxTool::WlClipboard,
        &|line| {
            if line == "wl-paste --no-newline" {
                Some(b"plain".to_vec())
            } else {
                None
            }
        },
        &mut asked,
    )
    .unwrap();
    assert_eq!(clip.text.as_deref(), Some("plain"));
    assert_eq!(clip.kind, ClipKind::Text);
    assert_eq!(
        asked,
        vec![
            "wl-paste --list-types".to_string(),
            "wl-paste --no-newline --type text/plain;charset=utf-8".to_string(),
            "wl-paste --no-newline".to_string(),
        ]
    );
}

#[test]
fn file_lists_and_rich_text_are_recognized() {
    let mut asked = Vec::new();
    let files = read_with(
        LinuxTool::Xclip,
        &|line| {
            if line.ends_with("TARGETS") {
                Some(b"text/uri-list\ntext/html".to_vec())
            } else {
                Some(b"file:///tmp/a".to_vec())
            }
        },
        &mut asked,
    )
    .unwrap();
    assert_eq!(files.kind, ClipKind::File);
    assert_eq!(files.mime, "text/uri-list");

    let rich = read_with(
        LinuxTool::Xclip,
        &|line| {
            if line.ends_with("TARGETS") {
                Some(b"text/html".to_vec())
            } else {
                Some(b"bold".to_vec())
            }
        },
        &mut asked,
    )
    .unwrap();
    assert_eq!(rich.kind, ClipKind::RichText);
    assert_eq!(rich.mime, "text/html");

    // xsel lists no types: text is all there is, and it may be invalid UTF-8.
    let mut asked = Vec::new();
    let lossy = read_with(LinuxTool::Xsel, &|_| Some(vec![b'a', 0xff]), &mut asked).unwrap();
    assert_eq!(lossy.text.as_deref(), Some("a\u{fffd}"));
    assert_eq!(asked, vec!["xsel --clipboard --output".to_string()]);

    assert!(read_with(LinuxTool::Xsel, &|_| None, &mut asked).is_none());
}

#[test]
fn a_poll_reports_each_content_once() {
    let mut cb = LinuxClipboard::with_tool(LinuxTool::Xclip);
    assert!(cb.poll(Some(NewClip::text("a"))).is_some());
    assert!(cb.poll(Some(NewClip::text("a"))).is_none());
    assert!(cb.poll(Some(NewClip::text("b"))).is_some());
    assert!(cb.poll(None).is_none());
    assert!(cb.poll(Some(NewClip::text("b"))).is_some());

    // What was absorbed is not reported; what is read on demand is.
    cb.absorb(&Some(NewClip::text("mine")));
    assert!(cb.poll(Some(NewClip::text("mine"))).is_none());
    assert!(cb.read_now(Some(NewClip::text("mine"))).is_some());
}

#[test]
fn writes_pick_the_right_command() {
    let (command, input) = LinuxClipboard::with_tool(LinuxTool::Xclip)
        .write_command(Payload::Image {
            bytes: &[9, 8],
            mime: "image/png",
        })
        .unwrap();
    assert_eq!(command.program, "xclip");
    assert_eq!(
        command.args,
        vec!["-selection", "clipboard", "-t", "image/png", "-i"]
    );
    assert_eq!(input, vec![9, 8]);

    let (command, input) = LinuxClipboard::with_tool(LinuxTool::WlClipboard)
        .write_command(Payload::Text("héllo"))
        .unwrap();
    assert_eq!(command.program, "wl-copy");
    assert!(command.args.is_empty());
    assert_eq!(input, "héllo".as_bytes());
}

#[test]
fn maps_mime_to_pasteboard_type() {
    assert_eq!(mime_to_pasteboard_type("image/tiff"), TYPE_TIFF);
    assert_eq!(mime_to_pasteboard_type("image/png"), TYPE_PNG);
    assert_eq!(mime_to_pasteboard_type("image/gibberish"), TYPE_PNG);
}

#[test]
fn pasteboard_writes_use_the_matching_type() {
    assert_eq!(write_type(Payload::Text("x")), TYPE_UTF8);
    assert_eq!(
        write_type(Payload::Image {
            bytes: &[1],
            mime: "image/tiff"
        }),
        TYPE_TIFF
    );
}

#[test]
fn pasteboard_changes_are_counted() {
    let mut cb = MacOsClipboard::new(7);
    assert!(!cb.poll(7));
    assert!(cb.poll(8));
    assert!(!cb.poll(8));
    cb.absorb(9);
    assert!(!cb.poll(9));
}

fn types(names: &[&str]) -> Vec<String> {
    names.iter().map(|n| n.to_string()).collect()
}

#[test]
fn concealed_pasteboard_items_are_never_read() {
    assert!(is_concealed(&types(&[
        "public.utf8-plain-text",
        "org.nspasteboard.ConcealedType"
    ])));
    assert!(!is_concealed(&types(&["public.utf8-plain-text"])));
    let reading = begin_reading(
        types(&["public.utf8-plain-text", "org.nspasteboard.ConcealedType"]),
        Some("Vault".to_string()),
        None,
    );
    let PasteReading::Done(Some(clip)) = reading else {
        panic!("a concealed item must not be read")
    };
    assert!(clip.concealed);
    assert_eq!(clip.text, None);
    assert_eq!(clip.source_app.as_deref(), Some("Vault"));
}

#[test]
fn pasteboard_representations_are_tried_in_order() {
    let reading = begin_reading(
        types(&["public.file-url", "public.png", "public.rtf"]),
        None,
        Some("com.example".to_string()),
    );
    let PasteReading::More(reader) = reading else {
        panic!("a file reference comes first")
    };
    assert_eq!(reader.wanted_type(), "public.file-url");
    let PasteReading::More(reader) = reader.give_text(None) else {
        panic!("then the image")
    };
    assert_eq!(reader.wanted_type(), TYPE_PNG);
    let PasteReading::More(reader) = reader.give_data(Some(Vec::new())) else {
        panic!("empty data is no image")
    };
    assert_eq!(reader.wanted_type(), TYPE_UTF8);
    let PasteReading::Done(Some(clip)) = reader.give_text(Some("styled".to_string())) else {
        panic!("then the text")
    };
    assert_eq!(clip.kind, ClipKind::RichText);
    assert_eq!(clip.mime, "text/rtf");
    assert_eq!(clip.source_bundle_id.as_deref(), Some("com.example"));
}

/// A scripted backend: yields queued clips, then optionally fails forever.
#[derive(Debug)]
struct FakeBackend {
    queue: Vec<Option<NewClip>>,
    fail_after_queue: bool,
    writes: Vec<String>,
}

impl ClipboardBackend for FakeBackend {
    fn name(&self) -> &'static str {
        "fake"
    }

    fn poll(&mut self) -> Result<Option<NewClip>> {
        if self.queue.is_empty() {
            if self.fail_after_queue {
                return Err(Error::ClipboardUnavailable);
            }
            return Ok(None);
        }
        Ok(self.queue.remove(0))
    }

    fn read_now(&mut self) -> Result<Option<NewClip>> {
        self.poll()
    }

    fn write(&mut self, payload: Payload<'_>) -> Result<()> {
        if let Payload::Text(t) = payload {
            self.writes.push(t.to_string());
        }
        Ok(())
    }
}

fn fake(queue: Vec<Option<NewClip>>, fail_after_queue: bool) -> FakeBackend {
    FakeBackend {
        queue,
        fail_after_queue,
        writes: Vec::new(),
    }
}

#[test]
fn forwards_new_clips_and_stops_on_signal() {
    let backend = fake(
        vec![Some(NewClip::text("one")), None, Some(NewClip::text("two"))],
        false,
    );
    let mut watcher = Watcher::new(backend, 50);
    let stop = watcher.stop_handle();

    let mut seen = Vec::new();
    // Stop after the queue drains: three polls' worth.
    let mut polls = 0;
    loop {
        if let Some(clip) = watcher.poll().unwrap() {
            seen.push(clip.text.unwrap_or_default());
        }
        polls += 1;
        if polls == 3 {
            stop.store(true, Ordering::Relaxed);
            break;
        }
    }
    assert_eq!(seen, vec!["one", "two"]);
    assert!(watcher.stop_handle().load(Ordering::Relaxed));
    assert_eq!(watcher.backend_name(), "fake");
}

#[test]
fn backs_off_on_repeated_errors_and_recovers() {
    let backend = fake(vec![], true);
    let mut watcher = Watcher::new(backend, 100);
    assert_eq!(watcher.current_interval(), 100);

    for _ in 0..3 {
        assert!(watcher.poll().is_err());
    }
    assert!(
        watcher.current_interval() > 100,
        "repeated failures must widen the interval"
    );

    // Backoff is capped so a wedged clipboard is still retried.
    for _ in 0..50 {
        let _ = watcher.poll();
    }
    assert!(watcher.current_interval() <= 10_000);
}

#[test]
fn interval_has_a_floor() {
    let watcher = Watcher::new(fake(vec![], false), 1);
    assert_eq!(watcher.current_interval(), 50);
}

#[test]
fn write_reaches_the_backend() {
    let mut watcher = Watcher::new(fake(vec![], false), 50);
    watcher.write(Payload::Text("hello")).unwrap();
}

#[test]
fn backoff_doubles_up_to_the_cap() {
    assert_eq!(wait_ms(100, 0), 100);
    assert_eq!(wait_ms(100, 1), 200);
    assert_eq!(wait_ms(100, 3), 800);
    assert_eq!(wait_ms(100, 5), 3_200);
    assert_eq!(wait_ms(100, 50), 3_200);
    assert_eq!(wait_ms(400, 5), 10_000);
    assert_eq!(wait_ms(u64::MAX, 5), 10_000);
    // An interval beyond the cap is kept until something fails.
    assert_eq!(wait_ms(60_000, 0), 60_000);
    assert_eq!(wait_ms(60_000, 1), 10_000);
}
