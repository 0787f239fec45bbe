//! What the messages tell.

use vstd::prelude::*;
use crate::clipboard;
use crate::error::Error;
use crate::license_error;
use crate::licensing::Status;
use crate::text::{decimal, digits, has_part};
use crate::text_laws::lemma_shown;
use crate::trusted::{debug_quoted, lossy_utf8};

verus! {

/// A message names what it is about: the clip, the pinboard, the file or directory,
/// the sizes, and the reason where there is one.
pub proof fn law_errors_name_their_subject(e: Error)
    ensures
        e matches Error::Sqlite(reason) ==> has_part(e.text(), reason@),
        e matches Error::Io { path, reason } ==> has_part(e.text(), path@) && has_part(
            e.text(),
            reason@,
        ),
        e matches Error::Config { path, reason } ==> has_part(e.text(), path@) && has_part(
            e.text(),
            reason@,
        ),
        e matches Error::ClipNotFound(id) ==> has_part(e.text(), decimal(id as int)),
        e matches Error::PinboardNotFound(name) ==> has_part(e.text(), debug_quoted(name@)),
        e matches Error::ClipTooLarge { limit, actual } ==> has_part(
            e.text(),
            digits(limit as nat),
        ) && has_part(e.text(), digits(actual as nat)),
        e matches Error::SocketPathTooLong(path) ==> has_part(e.text(), lossy_utf8(path@)),
        e matches Error::NotOurDirectory(path) ==> has_part(e.text(), lossy_utf8(path@)),
{
    let none = Seq::<char>::empty();
    let t = e.text();
    match e {
        Error::Sqlite(reason) => lemma_shown("database error: "@, reason@, none, t),
        Error::Io { path, reason } => {
            lemma_shown("i/o error at "@, path@, ": "@ + reason@, t);
            lemma_shown("i/o error at "@ + path@ + ": "@, reason@, none, t);
        },
        Error::Config { path, reason } => {
            lemma_shown("config file "@, path@, " is invalid: "@ + reason@, t);
            lemma_shown("config file "@ + path@ + " is invalid: "@, reason@, none, t);
        },
        Error::ClipNotFound(id) => lemma_shown("clip "@, decimal(id as int), " not found"@, t),
        Error::PinboardNotFound(name) => lemma_shown(
            "pinboard "@,
            debug_quoted(name@),
            " not found"@,
            t,
        ),
        Error::ClipTooLarge { limit, actual } => {
            let head = "refusing to store a clip larger than "@;
            let a = digits(limit as nat);
            let b = digits(actual as nat);
            lemma_shown(head, a, " bytes (got "@ + b + ")"@, t);
            lemma_shown(head + a + " bytes (got "@, b, ")"@, t);
        },
        Error::SocketPathTooLong(path) => lemma_shown(
            "control socket path "@,
            lossy_utf8(path@),
            " is too long for this platform. Use a shorter --data-dir, or set PASTEPORT_SOCKET to a short path"@,
            t,
        ),
        Error::NotOurDirectory(path) => lemma_shown(
            none,
            lossy_utf8(path@),
            " is not owned by the current user; refusing to use it"@,
            t,
        ),
        _ => {},
    }
}

/// A message about a clipboard helper names the helper and tells why it failed.
pub proof fn law_clipboard_errors_name_the_helper(e: clipboard::Error)
    ensures
        e matches clipboard::Error::HelperFailed { tool, status, stderr } ==> has_part(
            e.text(),
            tool@,
        ) && has_part(e.text(), status@) && has_part(e.text(), stderr@),
        e matches clipboard::Error::HelperSpawn { tool, reason } ==> has_part(e.text(), tool@)
            && has_part(e.text(), reason@),
        e matches clipboard::Error::UnsupportedContent { mime } ==> has_part(e.text(), mime@),
        e matches clipboard::Error::UnsupportedPlatform(name) ==> has_part(e.text(), name@),
{
    let none = Seq::<char>::empty();
    let t = e.text();
    match e {
        clipboard::Error::HelperFailed { tool, status, stderr } => {
            let a = "clipboard helper "@;
            let b = " failed with status "@;
            lemma_shown(a, tool@, b + status@ + ": "@ + stderr@, t);
            lemma_shown(a + tool@ + b, status@, ": "@ + stderr@, t);
            lemma_shown(a + tool@ + b + status@ + ": "@, stderr@, none, t);
        },
        clipboard::Error::HelperSpawn { tool, reason } => {
            let a = "could not run clipboard helper "@;
            lemma_shown(a, tool@, ": "@ + reason@, t);
            lemma_shown(a + tool@ + ": "@, reason@, none, t);
        },
        clipboard::Error::UnsupportedContent { mime } => lemma_shown(
            "clipboard contained "@,
            mime@,
            ", which Pasteport cannot represent"@,
            t,
        ),
        clipboard::Error::UnsupportedPlatform(name) => lemma_shown(
            "Pasteport has no clipboard backend for "@,
            name@,
            none,
            t,
        ),
        _ => {},
    }
}

/// A message about a license tells what is wrong with it.
pub proof fn law_license_errors_tell_what_is_wrong(e: license_error::Error)
    ensures
        e matches license_error::Error::Malformed(what) ==> has_part(e.text(), what@),
        e matches license_error::Error::UnknownFormat(prefix) ==> has_part(
            e.text(),
            debug_quoted(prefix@),
        ),
        e matches license_error::Error::UnsupportedPayloadVersion(v) ==> has_part(
            e.text(),
            digits(v as nat),
        ),
        e matches license_error::Error::InvalidVerifyingKey(what) ==> has_part(e.text(), what@),
        e matches license_error::Error::Encode(reason) ==> has_part(e.text(), reason@),
        e matches license_error::Error::Decode(reason) ==> has_part(e.text(), reason@),
        e matches license_error::Error::Io { path, reason } ==> has_part(e.text(), path@)
            && has_part(e.text(), reason@),
{
    let none = Seq::<char>::empty();
    let t = e.text();
    match e {
        license_error::Error::Malformed(what) => lemma_shown(
            "license key is malformed: "@,
            what@,
            none,
            t,
        ),
        license_error::Error::UnknownFormat(prefix) => lemma_shown(
            "license key format "@,
            debug_quoted(prefix@),
            " is not recognised by this version"@,
            t,
        ),
        license_error::Error::UnsupportedPayloadVersion(v) => lemma_shown(
            "license payload version "@,
            digits(v as nat),
            " is newer than this build understands"@,
            t,
        ),
        license_error::Error::InvalidVerifyingKey(what) => lemma_shown(
            "license verifying key is invalid: "@,
            what@,
            none,
            t,
        ),
        license_error::Error::Encode(reason) => lemma_shown(
            "could not encode license payload: "@,
            reason@,
            none,
            t,
        ),
        license_error::Error::Decode(reason) => lemma_shown(
            "could not decode license payload: "@,
            reason@,
            none,
            t,
        ),
        license_error::Error::Io { path, reason } => {
            lemma_shown("i/o error at "@, path@, ": "@ + reason@, t);
            lemma_shown("i/o error at "@ + path@ + ": "@, reason@, none, t);
        },
        _ => {},
    }
}

/// The summary of an entitlement names the plan, whom the license is for where it
/// ends, the days that are left of a trial, and the reason where it is not valid.
pub proof fn law_summaries_tell_the_status(status: Status)
    ensures
        status matches Status::Licensed { license } ==> has_part(
            status.text(),
            license.payload.plan.text(),
        ) && (license.payload.expires_at is Some ==> has_part(
            status.text(),
            license.payload.email@,
        )) && (license.payload.expires_at is None ==> has_part(status.text(), "perpetual"@)),
        status matches Status::Expired { license, expired_at } ==> has_part(
            status.text(),
            license.payload.email@,
        ),
        status matches Status::Trial { days_left, expires_at } ==> (days_left >= 1 ==> has_part(
            status.text(),
            digits(days_left as nat),
        )),
        status matches Status::Invalid { reason } ==> has_part(status.text(), reason@),
{
    let none = Seq::<char>::empty();
    let t = status.text();
    match status {
        Status::Licensed { license } => {
            let plan = license.payload.plan.text();
            let email = license.payload.email@;
            let more = match license.payload.expires_at {
                Some(_) => ", "@ + email,
                None => ", perpetual"@,
            };
            lemma_shown("Licensed ("@, plan, more + ")"@, t);
            if license.payload.expires_at is Some {
                lemma_shown("Licensed ("@ + plan + ", "@, email, ")"@, t);
            } else {
                reveal_strlit(", perpetual");
                reveal_strlit("perpetual");
                let gap = seq![',', ' '];
                assert(", perpetual"@ =~= gap + "perpetual"@);
                lemma_shown("Licensed ("@ + plan + gap, "perpetual"@, ")"@, t);
            }
        },
        Status::Expired { license, .. } => lemma_shown(
            "License expired ("@,
            license.payload.email@,
            ")"@,
            t,
        ),
        Status::Trial { days_left, .. } => {
            if days_left == 1 {
                reveal_strlit("Trial: 1 day left");
                reveal_strlit("Trial: ");
                reveal_strlit(" day left");
                assert(crate::text::digit(1) as u32 == 49);
                assert(digits(1) =~= seq!['1']);
                lemma_shown("Trial: "@, digits(1), " day left"@, t);
            } else if days_left > 1 {
                lemma_shown("Trial: "@, digits(days_left as nat), " days left"@, t);
            }
        },
        Status::Invalid { reason } => lemma_shown("License not valid: "@, reason@, none, t),
        _ => {},
    }
}

} // verus!
