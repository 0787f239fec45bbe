//! The small rules, from call to result.

use vstd::prelude::*;
use crate::cli::is_yes;
use crate::client::{key_action, read_done, ClientError, Engine, Key, KeyAction};
use crate::clip::{ClipKind, NewClip};
use crate::clipboard::{self, Payload};
use crate::config::{Config, ConfigFile, ConfigView};
use crate::error::Error;
use crate::license::{License, LicensePayload, Signed};
use crate::licensing::Status;
use crate::linux::{detect_tool, HelperCommand, LinuxClipboard, LinuxTool, Session};
use crate::linux_laws::has_pair;
use crate::macos::{write_type, MacOsClipboard, PasteReader, PasteReadingView, PasteWant};
use crate::paths::{adopts_legacy, check_owner, data_dir, mode_to_set};
use crate::protocol::{default_limit, Request, Response};
use crate::server::{admits, after_bind, BindStep, Bound};
use crate::store::wants_vacuum;
use crate::text::{is_blank, lower, lowered, trim};
use crate::trial::{Trial, TrialFile};

verus! {

// ---- clips and clipboards ----------------------------------------------

/// A text made of a known scheme and more in one piece becomes a link, whatever
/// whitespace is around it, and keeps its text.
pub proof fn law_links_become_links(
    body: &str,
    lead: Seq<char>,
    scheme: Seq<char>,
    rest: Seq<char>,
    trail: Seq<char>,
    res: NewClip,
)
    requires
        call_ensures(NewClip::text, (body,), res),
        body@ == lead + (scheme + rest) + trail,
        is_blank(lead),
        is_blank(trail),
        crate::kind_laws::is_scheme(scheme),
        rest.len() > 0,
        crate::kind_laws::in_one_piece(rest),
    ensures
        res@.kind == ClipKind::Link,
        res@.text == Some(body@),
{
    crate::kind_laws::law_links_are_recognised(lead, scheme, rest, trail);
}

/// What is written goes to the clipboard and nowhere else, whichever helper is in
/// use, and the helper is handed the content itself.
pub proof fn law_writes_go_to_the_clipboard(
    cb: &LinuxClipboard,
    payload: Payload<'_>,
    res: clipboard::Result<(HelperCommand, Vec<u8>)>,
)
    requires
        call_ensures(LinuxClipboard::write_command, (cb, payload), res),
    ensures
        res is Err <==> cb.used() == LinuxTool::Xsel && payload is Image,
        res is Ok && cb.used() == LinuxTool::Xclip ==> res->Ok_0.0@.program == "xclip"@ && has_pair(
            res->Ok_0.0@.args,
            "-selection"@,
            "clipboard"@,
        ) && res->Ok_0.0@.args.contains("-i"@),
        res is Ok && cb.used() == LinuxTool::Xsel ==> res->Ok_0.0@.program == "xsel"@
            && res->Ok_0.0@.args.contains("--clipboard"@) && res->Ok_0.0@.args.contains(
            "--input"@,
        ),
        res is Ok && cb.used() == LinuxTool::WlClipboard ==> res->Ok_0.0@.program == "wl-copy"@,
        res is Ok ==> (payload matches Payload::Text(text) ==> vstd::utf8::decode_utf8(
            res->Ok_0.1@,
        ) == text@),
        res is Ok ==> (payload matches Payload::Image { bytes, mime } ==> res->Ok_0.1@ == bytes@),
{
    let reader = crate::linux::ReaderView {
        tool: cb.used(),
        types: Seq::empty(),
        want: crate::linux::Want::Text { files: false, plain: false },
    };
    crate::linux_laws::law_input_is_the_payload(payload);
    match cb.used() {
        LinuxTool::Xclip => crate::linux_laws::law_xclip_stays_on_the_clipboard(reader, payload),
        LinuxTool::Xsel => crate::linux_laws::law_xsel_stays_on_the_clipboard(reader, payload),
        LinuxTool::WlClipboard => crate::linux_laws::law_wayland_stays_on_the_clipboard(
            reader,
            payload,
        ),
    }
}

/// A helper is picked where one is installed, and only an installed one: the one
/// that fits the session before the others.
pub proof fn law_installed_helpers_are_picked(session: &Session, res: Option<LinuxTool>)
    requires
        call_ensures(detect_tool, (session,), res),
    ensures
        res is None <==> !(session.wl_paste && session.wl_copy) && !session.xclip && !session.xsel,
        res == Some(LinuxTool::WlClipboard) ==> session.wl_paste && session.wl_copy,
        res == Some(LinuxTool::Xclip) ==> session.xclip,
        res == Some(LinuxTool::Xsel) ==> session.xsel && !session.xclip,
        session.wayland && session.wl_paste && session.wl_copy ==> res == Some(
            LinuxTool::WlClipboard,
        ),
        !session.wayland && session.xclip ==> res == Some(LinuxTool::Xclip),
        !session.wayland && !session.xclip && session.xsel ==> res == Some(LinuxTool::Xsel),
{
    let order = session.preference();
    assert(order[0] == order[0] && order[1] == order[1] && order[2] == order[2]);
}

/// On macOS an image is written under the type that it is read under.
pub proof fn law_images_keep_their_pasteboard_type(
    payload: Payload<'_>,
    reader: &PasteReader,
    data: Seq<u8>,
    written: &'static str,
    wanted: &'static str,
)
    requires
        call_ensures(write_type, (payload,), written),
        call_ensures(PasteReader::wanted_type, (reader,), wanted),
        reader.want == PasteWant::Png || reader.want == PasteWant::Tiff,
        data.len() > 0,
        payload matches Payload::Image { bytes, mime } && reader@.given_data(
            Some(data),
        ) matches PasteReadingView::Done(Some(clip)) && clip.mime == mime@,
    ensures
        written@ == wanted@,
{
    reveal_strlit("image/png");
    reveal_strlit("image/tiff");
    assert("image/png"@[6] == 'p' && "image/tiff"@[6] == 't');
}

/// On macOS a text is written under the type that texts are asked for.
pub proof fn law_texts_keep_their_pasteboard_type(
    text: &str,
    reader: &PasteReader,
    written: &'static str,
    wanted: &'static str,
)
    requires
        call_ensures(write_type, (Payload::Text(text),), written),
        call_ensures(PasteReader::wanted_type, (reader,), wanted),
        reader.want == PasteWant::Text,
    ensures
        written@ == wanted@,
{
}

/// The pasteboard is read exactly where its count has changed since the last look,
/// in whichever direction, and not again for the same count.
pub proof fn law_changed_counts_are_read(
    cb: &mut MacOsClipboard,
    again: &mut MacOsClipboard,
    current: i64,
    next: i64,
    first: bool,
    second: bool,
)
    requires
        call_ensures(MacOsClipboard::poll, (cb, current), first),
        *old(again) == *final(cb),
        call_ensures(MacOsClipboard::poll, (again, next), second),
    ensures
        first <==> current != old(cb).seen(),
        second <==> next != current,
{
}

// ---- settings ----------------------------------------------------------

/// A missing config file means the defaults; one that cannot be read or does not
/// parse is an error, never a silent reset; one that parses is kept but for what is
/// out of range.
pub proof fn law_config_files_are_not_reset(
    path: &str,
    file: ConfigFile,
    res: std::result::Result<Config, Error>,
)
    requires
        call_ensures(Config::load_from, (path, file), res),
    ensures
        file is Unreadable || file is Malformed ==> res is Err,
        file is Missing ==> res is Ok && res->Ok_0@ == ConfigView::standard(),
        file matches ConfigFile::Parsed(cfg) ==> res is Ok && res->Ok_0@.ignored_apps
            == cfg@.ignored_apps && res->Ok_0@.retention_days == cfg@.retention_days
            && res->Ok_0@.capture_images == cfg@.capture_images && (50 <= cfg@.poll_interval_ms
            <= 60_000 && cfg@.max_items >= 1 && 1024 <= cfg@.max_clip_bytes <= 268_435_456
            ==> res->Ok_0@ == cfg@),
{
    if let ConfigFile::Parsed(cfg) = file {
        crate::config::law_settings_move_to_the_nearest_bound(cfg@);
        if 50 <= cfg@.poll_interval_ms <= 60_000 && cfg@.max_items >= 1 && 1024
            <= cfg@.max_clip_bytes <= 268_435_456 {
            crate::config::law_sound_settings_are_kept(cfg@);
        }
    }
}

/// Where a client names no page size it gets fifty.
pub proof fn law_default_page_is_fifty(res: usize)
    requires
        call_ensures(default_limit, (), res),
    ensures
        res == 50,
{
}

// ---- files -------------------------------------------------------------

/// Permissions end up open to the owner alone: where they are not to be changed
/// nobody else has any, and what they are changed to gives nobody else any. The
/// owner can always read and write, and enter directories.
pub proof fn law_files_are_private(is_dir: bool, mode: u32, res: Option<u32>)
    requires
        call_ensures(mode_to_set, (is_dir, mode), res),
    ensures
        res is None ==> mode & 0o077 == 0 && mode & 0o600 == 0o600,
        res matches Some(m) ==> m & 0o077 == 0 && m & 0o600 == 0o600 && (is_dir <==> m & 0o100
            == 0o100),
{
    assert(0o700u32 & 0o077 == 0 && 0o700u32 & 0o600 == 0o600 && 0o700u32 & 0o100 == 0o100)
        by (bit_vector);
    assert(0o600u32 & 0o077 == 0 && 0o600u32 & 0o600 == 0o600 && 0o600u32 & 0o100 == 0)
        by (bit_vector);
    assert(mode & 0o777 == 0o700 ==> mode & 0o077 == 0 && mode & 0o600 == 0o600) by (bit_vector);
    assert(mode & 0o777 == 0o600 ==> mode & 0o077 == 0 && mode & 0o600 == 0o600) by (bit_vector);
}

/// Only a directory of our own is used, and old data is moved only to where nothing
/// is.
pub proof fn law_nothing_foreign_is_touched(
    path: Vec<u8>,
    owner: u32,
    us: u32,
    current_exists: bool,
    legacy_is_dir: bool,
    owned: std::result::Result<(), Error>,
    adopted: bool,
)
    requires
        call_ensures(check_owner, (path, owner, us), owned),
        call_ensures(adopts_legacy, (current_exists, legacy_is_dir), adopted),
    ensures
        owned is Ok <==> owner == us,
        adopted ==> !current_exists && legacy_is_dir,
        !current_exists && legacy_is_dir ==> adopted,
{
}

/// An explicit data directory is taken as it is; without one the platform's own is
/// the parent; without either there is none.
pub proof fn law_explicit_directory_wins(
    explicit: Option<Vec<u8>>,
    base: Option<Vec<u8>>,
    macos: bool,
    res: std::result::Result<Vec<u8>, Error>,
)
    requires
        call_ensures(data_dir, (explicit, base, macos), res),
    ensures
        explicit matches Some(dir) ==> res is Ok && res->Ok_0@ == dir@,
        explicit is None && base is None ==> res is Err,
        explicit is None ==> (base matches Some(b) ==> res is Ok && res->Ok_0@.len() > b@.len()
            && res->Ok_0@.take(b@.len() as int) == b@),
{
    if explicit is None && base is Some {
        let b = base->0@;
        reveal_strlit("Pasteport");
        reveal_strlit("pasteport");
        let name = if macos {
            "Pasteport"@
        } else {
            "pasteport"@
        };
        vstd::utf8::encode_utf8_decode_utf8(name);
        assert(vstd::utf8::encode_utf8(name).len() > 0) by {
            if vstd::utf8::encode_utf8(name).len() == 0 {
                assert(vstd::utf8::encode_utf8(name) =~= Seq::<u8>::empty());
                assert(vstd::utf8::decode_utf8(Seq::<u8>::empty()).len() == 0);
            }
        }
        assert(res->Ok_0@.take(b.len() as int) =~= b);
    }
}

/// A database is compacted where more than a quarter of it is free, unless it is
/// small.
pub proof fn law_mostly_empty_files_are_compacted(free: i64, total: i64, res: bool)
    requires
        call_ensures(wants_vacuum, (free, total), res),
    ensures
        total <= 1024 ==> !res,
        total > 1024 ==> (res <==> 4 * free > total),
{
}

// ---- the socket --------------------------------------------------------

/// Sixty-four clients are let in and no more; a socket that something answers at is
/// never replaced.
pub proof fn law_healthy_daemons_are_left_alone(
    live: usize,
    bound: Bound,
    admitted: bool,
    step: BindStep,
)
    requires
        call_ensures(admits, (live,), admitted),
        call_ensures(after_bind, (bound,), step),
    ensures
        admitted <==> live < 64,
        step == BindStep::Serve <==> bound == Bound::Listening,
        step == BindStep::Replace <==> bound == (Bound::Taken { answered: false }),
        step == BindStep::Yield <==> bound == (Bound::Taken { answered: true }),
{
}

// ---- the window and the terminal ---------------------------------------

/// An answer means yes where it is a y or a yes in any case, blanks around it
/// aside, and only then.
pub proof fn law_only_yes_is_yes(answer: &str, res: bool)
    requires
        call_ensures(is_yes, (answer,), res),
    ensures
        trim(answer@).len() == 0 ==> !res,
        trim(answer@) == "y"@ || trim(answer@) == "Y"@ || trim(answer@) == "yes"@ || trim(answer@)
            == "YES"@ || trim(answer@) == "Yes"@ ==> res,
        res ==> (trim(answer@).len() == 1 || trim(answer@).len() == 3) && (trim(answer@)[0] == 'y'
            || trim(answer@)[0] == 'Y'),
        res && trim(answer@).len() == 3 ==> (trim(answer@)[1] == 'e' || trim(answer@)[1] == 'E') && (
        trim(answer@)[2] == 's' || trim(answer@)[2] == 'S'),
{
    reveal_strlit("y");
    reveal_strlit("Y");
    reveal_strlit("yes");
    reveal_strlit("Yes");
    reveal_strlit("YES");
    let t = trim(answer@);
    assert(lowered(t).len() == t.len());
    assert forall|i: int| 0 <= i < t.len() implies lowered(t)[i] == lower(t[i]) by {}
    assert(lower('Y') as u32 == 'Y' as u32 + 32 && lower('E') as u32 == 'E' as u32 + 32 && lower(
        'S',
    ) as u32 == 'S' as u32 + 32);
    assert(lower('Y') == 'y' && lower('E') == 'e' && lower('S') == 's');
    if t == "y"@ || t == "Y"@ {
        assert(lowered(t) =~= "y"@);
    }
    if t == "yes"@ || t == "Yes"@ || t == "YES"@ {
        assert(lowered(t) =~= "yes"@);
    }
    assert("y"@.len() == 1 && "y"@[0] == 'y');
    assert("yes"@.len() == 3 && "yes"@[0] == 'y' && "yes"@[1] == 'e' && "yes"@[2] == 's');
    if res {
        assert(lowered(t)[0] == lower(t[0]));
        lemma_lower(t[0]);
        if t.len() == 3 {
            assert(lowered(t)[1] == lower(t[1]) && lowered(t)[2] == lower(t[2]));
            lemma_lower(t[1]);
            lemma_lower(t[2]);
        }
    }
}

proof fn lemma_lower(c: char)
    ensures
        lower(c) == 'y' ==> c == 'y' || c == 'Y',
        lower(c) == 'e' ==> c == 'e' || c == 'E',
        lower(c) == 's' ==> c == 's' || c == 'S',
{
    if 'A' <= c <= 'Z' {
        assert(lower(c) as u32 == c as u32 + 32);
    }
}

/// Nothing but the delete key deletes, and pinning takes the control key.
pub proof fn law_only_delete_deletes(
    key: Key,
    control: bool,
    selected: Option<i64>,
    res: KeyAction,
)
    requires
        call_ensures(key_action, (key, control, selected), res),
    ensures
        res is Delete <==> key == Key::Delete,
        res is Pin <==> key == Key::P && control,
        res is Close <==> key == Key::Escape,
        res matches KeyAction::Delete(id) ==> id == selected,
        res matches KeyAction::Pin(id) ==> id == selected,
{
}

/// A blank query asks for the recent clips, any other for a search of exactly that.
pub proof fn law_blank_queries_list(engine: &Engine, query: &str, limit: usize, res: Request)
    requires
        call_ensures(Engine::clips, (engine, query, limit), res),
    ensures
        res is List <==> is_blank(query@),
        res is Search <==> !is_blank(query@),
        res matches Request::Search { query: q, limit: l } ==> q@ == query@ && l == limit,
        res matches Request::List { limit: l, offset, kind } ==> l == limit && offset == 0
            && kind is None,
{
}

/// A refusal is reported with the daemon's reason; anything else is success.
pub proof fn law_refusals_are_reported(response: Response, res: Result<(), ClientError>)
    requires
        call_ensures(read_done, (response,), res),
    ensures
        res is Err <==> response is Error,
        res matches Err(ClientError::Refused(why)) ==> response == (Response::Error {
            message: why,
        }),
{
}

// ---- licensing ---------------------------------------------------------

/// Whoever cannot work is told so; of those who can, only trials about to end are
/// mentioned.
pub proof fn law_attention_where_it_is_due(status: &Status, functional: bool, attention: bool)
    requires
        call_ensures(Status::is_functional, (status,), functional),
        call_ensures(Status::needs_attention, (status,), attention),
    ensures
        !functional ==> attention,
        functional && attention ==> (*status matches Status::Trial { days_left, expires_at }
            && days_left <= 3),
        *status matches Status::Trial { days_left, expires_at } ==> functional && (attention
            <==> days_left <= 3),
        *status is SelfBuilt || *status is Licensed ==> functional && !attention,
        *status is Expired || *status is TrialExpired || *status is Invalid ==> !functional,
{
}

/// A trial on record goes on as it is; a missing or corrupt record starts one now;
/// one that cannot be read is an error and starts none.
pub proof fn law_trials_are_not_restarted(
    file: TrialFile,
    machine: &str,
    now: i64,
    res: crate::license_error::Result<(Trial, bool)>,
)
    requires
        call_ensures(Trial::load_or_start, (file, machine, now), res),
    ensures
        file matches TrialFile::Present(trial) ==> res is Ok && res->Ok_0.0.started_at
            == trial.started_at && !res->Ok_0.1,
        file is Missing || file is Corrupt ==> res is Ok && res->Ok_0.0.started_at == now
            && res->Ok_0.0.machine@ == machine@ && res->Ok_0.1,
        file is Unreadable ==> res is Err,
{
}

/// A verified key is accepted exactly where its payload decodes and is of the one
/// known version, and the license is then that payload.
pub proof fn law_known_payloads_are_accepted(
    signed: Signed,
    decoded: std::result::Result<LicensePayload, String>,
    res: crate::license_error::Result<License>,
)
    requires
        call_ensures(License::accept, (signed, decoded), res),
    ensures
        res is Ok <==> decoded is Ok && decoded->Ok_0.v == 1,
        res matches Ok(license) ==> license.payload == decoded->Ok_0 && license.raw == signed.raw,
{
}

/// A masked license shows no more than the first six characters of its id.
pub proof fn law_masked_ids_are_cut(license: &License, res: String)
    requires
        call_ensures(License::masked, (license,), res),
    ensures
        res@.len() <= 7,
        res@.len() > 0 && res@.last() == '\u{2026}',
        res@.drop_last() == license.payload.id@.take(res@.len() - 1),
        license.payload.id@.len() >= 6 ==> res@.len() == 7,
{
    let n = if license.payload.id@.len() < 6 {
        license.payload.id@.len() as int
    } else {
        6
    };
    assert(res@.drop_last() =~= license.payload.id@.take(n));
}

/// While a license lasts the status is licensed, from its end on it is expired; a
/// payload that does not decode or is of another version is not valid.
pub proof fn law_licenses_last_to_their_end(
    signed: Signed,
    decoded: std::result::Result<LicensePayload, String>,
    now: i64,
    res: Status,
)
    requires
        call_ensures(crate::licensing::Licensing::licensed_status, (signed, decoded, now), res),
    ensures
        decoded is Err || decoded->Ok_0.v != 1 ==> res is Invalid,
        decoded is Ok && decoded->Ok_0.v == 1 ==> {
            let end = decoded->Ok_0.expires_at;
            &&& end is None ==> res is Licensed
            &&& end matches Some(t) ==> (res is Licensed <==> now < t) && (res is Expired <==> now
                >= t)
            &&& res matches Status::Licensed { license } ==> license.payload == decoded->Ok_0
        },
{
}

/// A trial is on for fourteen days from its start, with at least one day left as
/// long as it is, and over after that.
pub proof fn law_trials_run_a_fortnight(trial: Trial, now: i64, res: Status)
    requires
        call_requires(
            crate::licensing::Licensing::trial_status,
            (Ok::<Trial, crate::license_error::Error>(trial), now),
        ),
        call_ensures(
            crate::licensing::Licensing::trial_status,
            (Ok::<Trial, crate::license_error::Error>(trial), now),
            res,
        ),
        trial.in_range(now),
        trial.started_at <= now,
    ensures
        res is Trial <==> now - trial.started_at < 1_209_600,
        res is TrialExpired <==> now - trial.started_at >= 1_209_600,
        res matches Status::Trial { days_left, expires_at } ==> 1 <= days_left <= 14 && expires_at
            - trial.started_at == 1_209_600 && days_left * 86_400 >= expires_at - now && (days_left
            - 1) * 86_400 < expires_at - now,
{
    crate::trial::law_days_left_are_rounded_up(trial.started_at + 1_209_600, now as int);
    crate::trial::law_trial_days(trial.started_at, now);
}

/// A build without a key is never asked for a license; with a key, a missing
/// license leads to the trial and an unreadable one is not valid.
pub proof fn law_builds_without_a_key_are_free(
    licensing: &crate::licensing::Licensing,
    file: crate::licensing::LicenseFile,
    res: crate::licensing::StatusStep,
)
    requires
        call_ensures(crate::licensing::Licensing::begin_status, (licensing, file), res),
    ensures
        licensing.key() is None ==> res == crate::licensing::StatusStep::Done(Status::SelfBuilt),
        licensing.key() is Some && file is Missing ==> res is Trial,
        licensing.key() is Some && file is Unreadable ==> res is Done && res->Done_0 is Invalid,
        licensing.key() is Some && file is Present ==> res is Decode || res is Done
            && res->Done_0 is Invalid,
{
}

/// What was just taken note of is not reported by the next poll, and anything else
/// is.
pub proof fn law_absorbed_contents_are_not_reported(
    cb: &mut LinuxClipboard,
    again: &mut LinuxClipboard,
    written: &Option<NewClip>,
    read: Option<NewClip>,
    res: Option<NewClip>,
)
    requires
        *written is Some,
        read is Some,
        call_ensures(LinuxClipboard::absorb, (cb, written), ()),
        *old(again) == *final(cb),
        call_ensures(LinuxClipboard::poll, (again, read), res),
    ensures
        read->0@.digest() == (*written)->0@.digest() ==> res is None,
        read->0@.digest() != (*written)->0@.digest() ==> res is Some && res->0@ == read->0@,
        final(cb).used() == old(cb).used(),
{
}

/// The same on macOS: a count that was taken note of is not read again.
pub proof fn law_absorbed_counts_are_not_read(
    cb: &mut MacOsClipboard,
    again: &mut MacOsClipboard,
    ours: i64,
    current: i64,
    res: bool,
)
    requires
        call_ensures(MacOsClipboard::absorb, (cb, ours), ()),
        *old(again) == *final(cb),
        call_ensures(MacOsClipboard::poll, (again, current), res),
    ensures
        res <==> current != ours,
{
}

/// A line that is too long ends the connection, a blank one is passed over, and any
/// other is parsed as it is, a carriage return at its end aside.
pub proof fn law_lines_are_parsed(line: Vec<u8>, res: crate::server::LineStep)
    requires
        call_ensures(crate::server::take_line, (line,), res),
    ensures
        line@.len() > 1_048_576 ==> res is HangUp,
        line@.len() == 0 || line@ == seq![13u8] ==> res is Skip,
        0 < line@.len() <= 1_048_576 && line@.last() != 13 ==> res is Parse && res->Parse_0@
            == line@,
        1 < line@.len() <= 1_048_576 && line@.last() == 13 ==> res is Parse && res->Parse_0@
            == line@.drop_last(),
{
}

/// An explicit socket path is taken as it is; else the one beside the database
/// where it fits, else a short one; and no path that is too long is ever used.
pub proof fn law_sockets_fit(
    explicit: Option<Vec<u8>>,
    dir: &Vec<u8>,
    runtime: &Vec<u8>,
    res: std::result::Result<Vec<u8>, Error>,
)
    requires
        call_ensures(crate::paths::socket_path, (explicit, dir, runtime), res),
    ensures
        explicit matches Some(path) ==> res is Ok && res->Ok_0@ == path@,
        explicit is None && res is Ok ==> res->Ok_0@.len() <= 100,
        explicit is None && crate::paths::preferred_socket(dir@).len() <= 100 ==> res is Ok
            && res->Ok_0@ == crate::paths::preferred_socket(dir@),
{
}

/// A kind stored under a name that is not known counts as text.
pub proof fn law_unknown_kinds_are_text(name: &str, kind: ClipKind, res: ClipKind)
    requires
        call_ensures(crate::store::stored_kind, (name,), res),
    ensures
        name@ == kind.name() ==> res == kind,
        (forall|k: ClipKind| name@ != #[trigger] k.name()) ==> res == ClipKind::Text,
{
    crate::clip::law_kind_names_read_back(kind);
    if forall|k: ClipKind| name@ != #[trigger] k.name() {
        assert(name@ != ClipKind::Text.name() && name@ != ClipKind::RichText.name() && name@
            != ClipKind::Link.name() && name@ != ClipKind::Color.name() && name@
            != ClipKind::Image.name() && name@ != ClipKind::File.name());
    }
}

/// Naming a clip's source or marking it concealed changes nothing else about it.
pub proof fn law_marks_leave_the_content(
    clip: NewClip,
    app: Option<String>,
    bundle_id: Option<String>,
    flag: bool,
    sourced: NewClip,
    marked: NewClip,
)
    requires
        call_ensures(NewClip::with_source, (clip, app, bundle_id), sourced),
        call_ensures(NewClip::concealed, (clip, flag), marked),
    ensures
        sourced@.source_app == crate::view::opt_text(app),
        sourced@.source_bundle_id == crate::view::opt_text(bundle_id),
        sourced@.text == clip@.text && sourced@.bytes == clip@.bytes && sourced@.kind == clip@.kind
            && sourced@.mime == clip@.mime && sourced@.concealed == clip@.concealed,
        marked@.concealed == flag,
        marked@.text == clip@.text && marked@.bytes == clip@.bytes && marked@.kind == clip@.kind
            && marked@.mime == clip@.mime && marked@.source_app == clip@.source_app
            && marked@.source_bundle_id == clip@.source_bundle_id,
{
}

/// A time without a date in the calendar is shown in seconds.
pub proof fn law_times_are_dates_or_seconds(dated: Option<String>, secs: i64, res: String)
    requires
        call_ensures(crate::clip::time_or_seconds, (dated, secs), res),
    ensures
        dated matches Some(date) ==> res@ == date@,
        dated is None && secs >= 0 ==> crate::text::digits_value(res@) == secs,
        dated is None && secs < 0 ==> res@[0] == '-' && crate::text::digits_value(res@.skip(1))
            == -secs,
{
    let size: nat = if secs < 0 {
        (-secs) as nat
    } else {
        secs as nat
    };
    crate::text_laws::law_digits_read_back(size);
    assert((seq!['-'] + crate::text::digits(size)).skip(1) =~= crate::text::digits(size));
}

/// The daemon exits when it is asked to and not before, and its settings stay.
pub proof fn law_only_shutdown_shuts_down(
    desk: &mut crate::service::Dispatcher,
    req: Request,
    now: i64,
    uptime: u64,
    res: crate::service::Step,
)
    requires
        old(desk).store.wf(),
        call_ensures(crate::service::Dispatcher::begin, (desk, req, now, uptime), res),
    ensures
        final(desk).shutdown && !old(desk).shutdown ==> req is Shutdown,
        req is Shutdown ==> final(desk).shutdown,
        old(desk).shutdown ==> final(desk).shutdown,
        final(desk).config == old(desk).config,
        final(desk).store.wf(),
{
}

/// The changes handed out are those since the last time, and none is handed out
/// twice.
pub proof fn law_changes_are_handed_out_once(
    s: &mut crate::store::Store,
    again: &mut crate::store::Store,
    first: Vec<crate::store::Change>,
    second: Vec<crate::store::Change>,
)
    requires
        call_ensures(crate::store::Store::take_changes, (s,), first),
        *old(again) == *final(s),
        call_ensures(crate::store::Store::take_changes, (again,), second),
    ensures
        crate::store::change_views(first@) == old(s).changes(),
        second@.len() == 0,
        final(again)@ == old(s)@,
{
    assert(crate::store::change_views(second@).len() == second@.len());
}

/// A helper that succeeded gives its output as it is; one that failed gives none,
/// and is reported with its name, its exit status and what it complained of.
pub proof fn law_helper_output_is_taken_on_success(
    program: &str,
    success: bool,
    status: String,
    stdout: Vec<u8>,
    stderr: &Vec<u8>,
    res: clipboard::Result<Vec<u8>>,
    kept: Option<Vec<u8>>,
)
    requires
        call_ensures(
            crate::linux::helper_result,
            (program, success, status, stdout, stderr),
            res,
        ),
        call_ensures(crate::linux::run_ok, (res,), kept),
    ensures
        success ==> res is Ok && res->Ok_0@ == stdout@ && kept is Some && kept->0@ == stdout@,
        !success ==> res is Err && kept is None,
        res matches Err(e) ==> e is HelperFailed && e->HelperFailed_tool@ == program@
            && e->HelperFailed_status@ == status@,
{
}

/// A license is signed under the id that was told, or under the generated one where
/// none was, and never without an address.
pub proof fn law_licenses_need_an_address(
    args: crate::mint::SignArgs,
    generated: String,
    issued_at: i64,
    res: std::result::Result<LicensePayload, String>,
)
    requires
        crate::mint::term_fits(args.days, issued_at),
        call_ensures(crate::mint::payload_for, (args, generated, issued_at), res),
    ensures
        res is Ok <==> args.email is Some,
        res matches Ok(p) ==> p@.email == args.email->0@ && p@.issued_at == issued_at && p@.plan
            == args.plan && (args.id matches Some(id) ==> p@.id == id@) && (args.id is None
            ==> p@.id == generated@),
{
}

/// The database and the settings are two files, both in the data directory.
pub proof fn law_data_lives_in_the_data_directory(
    dir: &Vec<u8>,
    database: Vec<u8>,
    config: Vec<u8>,
)
    requires
        dir@.len() > 0,
        call_ensures(crate::paths::database_path, (dir,), database),
        call_ensures(crate::paths::config_path, (dir,), config),
    ensures
        database@.take(dir@.len() as int) == dir@,
        config@.take(dir@.len() as int) == dir@,
        database@ != config@,
{
    reveal_strlit("history.sqlite3");
    reveal_strlit("config.toml");
    let a = vstd::utf8::encode_utf8("history.sqlite3"@);
    let b = vstd::utf8::encode_utf8("config.toml"@);
    vstd::utf8::encode_utf8_decode_utf8("history.sqlite3"@);
    vstd::utf8::encode_utf8_decode_utf8("config.toml"@);
    assert("history.sqlite3"@[0] == 'h' && "config.toml"@[0] == 'c');
    assert(a != b);
    let n = if dir@.last() == 47 {
        dir@.len() as int
    } else {
        dir@.len() as int + 1
    };
    assert(database@.skip(n) =~= a);
    assert(config@.skip(n) =~= b);
    assert(database@.take(dir@.len() as int) =~= dir@);
    assert(config@.take(dir@.len() as int) =~= dir@);
}

/// A reason for not storing a clip is told by its own words.
pub proof fn law_reasons_are_told(reason: crate::model::SkipReason)
    ensures
        reason.text() == (match reason {
            crate::model::SkipReason::Empty => "empty"@,
            crate::model::SkipReason::Concealed => "concealed"@,
            crate::model::SkipReason::IgnoredSource => "ignored source"@,
            crate::model::SkipReason::TooLarge => "too large"@,
            crate::model::SkipReason::ImagesDisabled => "image capture disabled"@,
        }),
{
}

/// A stored identifier counts whatever whitespace is around it, and nothing else
/// does.
pub proof fn law_kept_fingerprints_may_be_padded(
    existing: &str,
    lead: Seq<char>,
    id: Seq<char>,
    trail: Seq<char>,
    res: Option<String>,
)
    requires
        call_ensures(crate::machine::kept_fingerprint, (existing,), res),
        existing@ == lead + id + trail,
        is_blank(lead),
        is_blank(trail),
        id.len() == 32,
    ensures
        (forall|i: int| 0 <= i < 32 ==> crate::text::is_hex(#[trigger] id[i])) ==> res is Some
            && res->0@ == id,
        res matches Some(kept) ==> kept@.len() == 32 && forall|i: int|
            0 <= i < 32 ==> crate::text::is_hex(#[trigger] kept@[i]),
{
    if forall|i: int| 0 <= i < 32 ==> crate::text::is_hex(#[trigger] id[i]) {
        assert(crate::text::is_hex(id[0]) && crate::text::is_hex(id[31]));
        crate::text_laws::law_ascii_whitespace(id[0]);
        crate::text_laws::law_ascii_whitespace(id[31]);
        crate::text_laws::law_trim_strips_the_ends(lead, id, trail);
    }
}

/// Each of a clip's two times is shown as the other would be if it were that time.
pub proof fn law_times_are_shown_alike(
    clip: &crate::clip::Clip,
    other: &crate::clip::Clip,
    created: String,
    used: String,
)
    requires
        call_ensures(crate::clip::Clip::created_at_rfc3339, (clip,), created),
        call_ensures(crate::clip::Clip::last_used_at_rfc3339, (other,), used),
    ensures
        clip.created_at == other.last_used_at ==> created@ == used@,
        crate::trusted::rfc3339(clip.created_at) matches Some(date) ==> created@ == date,
        crate::trusted::rfc3339(other.last_used_at) matches Some(date) ==> used@ == date,
{
}

/// The title tells the version and how many clips there are.
pub proof fn law_title_tells_the_count(report: &crate::protocol::StatusReport, res: String)
    requires
        call_ensures(crate::client::window_title, (report,), res),
    ensures
        crate::text::has_part(res@, report@.version),
        crate::text::has_part(res@, crate::text::decimal(report@.stats.total_clips as int)),
        crate::text::has_prefix(res@, "Pasteport "@),
{
    let version = report@.version;
    let count = crate::text::decimal(report@.stats.total_clips as int);
    let dash = " \u{2014} "@;
    crate::text_laws::lemma_shown(
        "Pasteport "@,
        version,
        dash + count + " clips"@,
        res@,
    );
    crate::text_laws::lemma_shown("Pasteport "@ + version + dash, count, " clips"@, res@);
    assert(res@.subrange(0, "Pasteport "@.len() as int) =~= "Pasteport "@);
}

/// The question names everything exactly where everything is to go.
pub proof fn law_question_names_what_goes(all: bool, res: &'static str)
    requires
        call_ensures(crate::cli::clear_question, (all,), res),
    ensures
        all <==> crate::text::has_prefix(res@, "Delete ALL clips, including pinned ones"@),
        !all <==> crate::text::has_prefix(res@, "Delete all unpinned clips"@),
{
    reveal_strlit(
        "Delete ALL clips, including pinned ones and pinboard contents? This cannot be undone. [y/N] ",
    );
    reveal_strlit("Delete all unpinned clips? This cannot be undone. [y/N] ");
    reveal_strlit("Delete ALL clips, including pinned ones");
    reveal_strlit("Delete all unpinned clips");
    let loud = "Delete ALL clips, including pinned ones"@;
    let mild = "Delete all unpinned clips"@;
    assert(loud[7] == 'A' && mild[7] == 'a');
    if all {
        assert(res@.subrange(0, loud.len() as int) =~= loud);
        assert(res@.subrange(0, mild.len() as int)[7] == 'A');
    } else {
        assert(res@.subrange(0, mild.len() as int) =~= mild);
        assert(res@.subrange(0, loud.len() as int)[7] == 'a');
    }
}

/// A helper is said to take images exactly where writing one with it is possible.
pub proof fn law_image_support_is_told(
    tool: LinuxTool,
    told: bool,
    cb: &LinuxClipboard,
    payload: Payload<'_>,
    written: clipboard::Result<(HelperCommand, Vec<u8>)>,
)
    requires
        call_ensures(LinuxTool::supports_images, (tool,), told),
        call_ensures(LinuxClipboard::write_command, (cb, payload), written),
        cb.used() == tool,
        payload is Image,
    ensures
        told <==> written is Ok,
{
}

/// The former data directory is the one of its name below the base.
pub proof fn law_former_directory(base: &Vec<u8>, res: Vec<u8>)
    requires
        base@.len() > 0,
        base@.last() != 47,
        call_ensures(crate::paths::legacy_dir, (base,), res),
    ensures
        res@.take(base@.len() as int + 1) == base@.push(47),
        vstd::utf8::decode_utf8(res@.skip(base@.len() as int + 1)) == "com.pasteport.Pasteport"@,
{
    let name = vstd::utf8::encode_utf8("com.pasteport.Pasteport"@);
    vstd::utf8::encode_utf8_decode_utf8("com.pasteport.Pasteport"@);
    assert(res@.take(base@.len() as int + 1) =~= base@.push(47));
    assert(res@.skip(base@.len() as int + 1) =~= name);
}

/// A line that does not parse is answered with an error that gives the reason.
pub proof fn law_parse_errors_give_the_reason(reason: &str, res: Response, told: bool)
    requires
        call_ensures(crate::server::unparsed, (reason,), res),
        call_ensures(Response::is_error, (&res,), told),
    ensures
        told,
        res@ matches crate::protocol::ResponseView::Error { message } && crate::text::has_part(
            message,
            reason@,
        ) && crate::text::has_prefix(message, "could not parse request"@),
{
    let lead = "could not parse request: "@;
    reveal_strlit("could not parse request: ");
    reveal_strlit("could not parse request");
    crate::text_laws::lemma_shown(lead, reason@, Seq::empty(), lead + reason@);
    assert((lead + reason@).subrange(0, "could not parse request"@.len() as int)
        =~= "could not parse request"@);
}

/// A message without line ends makes one line, which holds the message.
pub proof fn law_messages_are_lines(message: &str, res: String)
    requires
        call_ensures(crate::server::encode_line, (message,), res),
        !message@.contains('\n'),
    ensures
        crate::text::segments(res@, '\n')[0] == message@,
        res@.len() == message@.len() + 1,
        res@.last() == '\n',
{
    crate::text_laws::law_segments_come_apart(message@, '\n', Seq::empty());
    assert(message@.push('\n') + Seq::<char>::empty() =~= res@);
}

/// A trial is on exactly as long as days are left of it, which is for fourteen days.
pub proof fn law_active_trials_have_days_left(trial: &Trial, now: i64, active: bool, days: u32)
    requires
        trial.in_range(now),
        trial.started_at <= now,
        call_ensures(Trial::is_active_at, (trial, now), active),
        call_ensures(Trial::days_left_at, (trial, now), days),
    ensures
        active <==> days > 0,
        active <==> now - trial.started_at < 14 * 24 * 60 * 60,
        days <= 14,
{
}

/// Looking at a trial starts none: it is there only where its record is.
pub proof fn law_peeking_starts_no_trial(
    file: TrialFile,
    res: crate::license_error::Result<Option<Trial>>,
)
    requires
        call_ensures(Trial::peek, (file,), res),
    ensures
        file matches TrialFile::Present(trial) ==> res is Ok && res->Ok_0 == Some(trial),
        res is Ok && res->Ok_0 is Some ==> file is Present,
        res is Err <==> file is Unreadable,
{
}

/// A concealed item leaves nothing of its content.
pub proof fn law_placeholders_are_empty(res: NewClip)
    requires
        call_ensures(clipboard::concealed_placeholder, (), res),
    ensures
        res@.concealed,
        res@.text is None,
        res@.bytes is None,
        res@.source_app is None,
{
}

/// An item is concealed exactly where one of the three markers is offered.
pub proof fn law_markers_conceal(types: &Vec<String>, res: bool)
    requires
        call_ensures(clipboard::is_concealed, (types,), res),
    ensures
        res <==> crate::linux_laws::says_keep_out(crate::text::strs_view(types@)),
{
    crate::linux_laws::lemma_keep_out(crate::text::strs_view(types@));
}

/// A refusal reaches the client as its message, whichever reply was waited for, and
/// a reply of the awaited kind as its content.
pub proof fn law_replies_are_read(
    response: Response,
    clips: std::result::Result<Vec<crate::clip::Clip>, ClientError>,
    status: std::result::Result<crate::protocol::StatusReport, ClientError>,
)
    requires
        call_ensures(crate::client::read_clips, (response,), clips),
        call_ensures(crate::client::read_status, (response,), status),
    ensures
        !(clips is Ok && status is Ok),
        response@ is Clips <==> clips is Ok,
        response@ is Status <==> status is Ok,
        response matches Response::Error { message } ==> clips is Err && status is Err
            && clips->Err_0 == ClientError::Refused(message) && status->Err_0
            == ClientError::Refused(message),
        response matches Response::Clips { clips: sent } ==> clips->Ok_0 == sent,
        response matches Response::Status(sent) ==> status->Ok_0 == *sent,
{
}

/// The id of a license is a fixed mark and two digits for each of six bytes, so
/// different bytes make different ids.
pub proof fn law_license_ids_differ(a: &Vec<u8>, b: &Vec<u8>, id: String, other: String)
    requires
        a@.len() >= 6,
        b@.len() >= 6,
        call_ensures(crate::machine::license_id, (a,), id),
        call_ensures(crate::machine::license_id, (b,), other),
    ensures
        id@.len() == 16,
        crate::text::has_prefix(id@, "lic_"@),
        a@.take(6) != b@.take(6) ==> id@ != other@,
{
    reveal_strlit("lic_");
    crate::text::lemma_hex_len(a@.take(6));
    assert(id@.subrange(0, 4) =~= "lic_"@);
    assert(id@.skip(4) =~= crate::text::hex(a@.take(6)));
    assert(other@.skip(4) =~= crate::text::hex(b@.take(6)));
    if a@.take(6) != b@.take(6) {
        crate::machine::law_fingerprints_differ(a@.take(6), b@.take(6));
    }
}

/// What is read on request is handed out, and is not reported again as a change.
pub proof fn law_requested_reads_are_remembered(
    cb: &mut LinuxClipboard,
    again: &mut LinuxClipboard,
    read: Option<NewClip>,
    got: Option<NewClip>,
    polled: Option<NewClip>,
)
    requires
        call_ensures(LinuxClipboard::read_now, (cb, read), got),
        *old(again) == *final(cb),
        call_ensures(LinuxClipboard::poll, (again, read), polled),
    ensures
        got == read,
        polled is None,
{
}

/// Each helper is told by its own name.
pub proof fn law_helpers_are_told_by_name(tool: LinuxTool, res: &'static str)
    requires
        call_ensures(LinuxTool::as_str, (tool,), res),
    ensures
        tool == LinuxTool::WlClipboard <==> res@ == "wl-clipboard"@,
        tool == LinuxTool::Xclip <==> res@ == "xclip"@,
        tool == LinuxTool::Xsel <==> res@ == "xsel"@,
{
    reveal_strlit("wl-clipboard");
    reveal_strlit("xclip");
    reveal_strlit("xsel");
    assert("wl-clipboard"@.len() == 12 && "xclip"@.len() == 5 && "xsel"@.len() == 4);
}

/// A scan for a query of fewer than twenty-five thousand bytes succeeds, whatever it
/// is made of.
pub proof fn law_short_queries_are_scanned_for(
    s: &crate::store::Store,
    query: &str,
    limit: usize,
    res: std::result::Result<Vec<crate::clip::Clip>, Error>,
)
    requires
        s.wf(),
        call_ensures(crate::store::Store::search_like, (s, query, limit), res),
        vstd::utf8::encode_utf8(query@).len() < 25_000,
    ensures
        res is Ok,
{
    crate::search::law_short_queries_fit(query@);
}

} // verus!
