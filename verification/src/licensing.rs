//! The entitlement state of an install: resolved from the license file, the trial
//! record, and the key compiled into the build. Reading the files is left to the
//! caller.

use vstd::prelude::*;
use crate::license::{
    key_contents, reports, verifying_key_from_b64, License, LicensePayload, Signed,
    VerifyingKey,
};
use crate::license_error::{Error, Result};
use crate::text::{append_chars, chars_of, digits, string_of, unsigned_chars};
use crate::trial::{trial_end, whole_days, Trial};

verus! {

/// The entitlement state of this install.
#[derive(Debug, PartialEq, Eq)]
pub enum Status {
    /// A valid license is installed.
    Licensed { license: Box<License> },
    /// The license verified but its term has ended.
    Expired { license: Box<License>, expired_at: i64 },
    /// Inside the evaluation window.
    Trial { days_left: u32, expires_at: i64 },
    /// Evaluation window is over and no license is installed.
    TrialExpired { expired_at: i64 },
    /// A license file exists but does not verify.
    Invalid { reason: String },
    /// Built from source without a verifying key. Fully functional.
    SelfBuilt,
}

impl Status {
    /// Whether the app should run its full feature set.
    pub fn is_functional(&self) -> (res: bool)
        ensures
            res == (self is Licensed || self is Trial || self is SelfBuilt),
    {
        matches!(self, Status::Licensed { .. } | Status::Trial { .. } | Status::SelfBuilt)
    }

    /// Whether the user interface should nag. Distinct from
    /// [`is_functional`](Self::is_functional): a trial with two days left works
    /// fine but is worth mentioning.
    pub fn needs_attention(&self) -> (res: bool)
        ensures
            res == match *self {
                Status::Licensed { .. } => false,
                Status::SelfBuilt => false,
                Status::Trial { days_left, .. } => days_left <= 3,
                _ => true,
            },
    {
        match self {
            Status::Licensed { .. } => false,
            Status::SelfBuilt => false,
            Status::Trial { days_left, .. } => *days_left <= 3,
            _ => true,
        }
    }

    /// The one-line summary.
    pub open spec fn text(self) -> Seq<char> {
        match self {
            Status::Licensed { license } => "Licensed ("@ + license.payload.plan.text() + (
            match license.payload.expires_at {
                Some(_) => ", "@ + license.payload.email@,
                None => ", perpetual"@,
            }) + ")"@,
            Status::Expired { license, .. } => "License expired ("@ + license.payload.email@
                + ")"@,
            Status::Trial { days_left, .. } => if days_left == 0 {
                "Trial ends today"@
            } else if days_left == 1 {
                "Trial: 1 day left"@
            } else {
                "Trial: "@ + digits(days_left as nat) + " days left"@
            },
            Status::TrialExpired { .. } => "Trial expired; a license is required"@,
            Status::Invalid { reason } => "License not valid: "@ + reason@,
            Status::SelfBuilt => "Built from source (unlicensed build)"@,
        }
    }

    /// One-line summary for `pasteport status` and the about box.
    pub fn summary(&self) -> (res: String)
        ensures
            res@ == self.text(),
    {
        let mut v: Vec<char> = Vec::new();
        match self {
            Status::Licensed { license } => {
                append_chars(&mut v, &chars_of("Licensed ("));
                append_chars(&mut v, &chars_of(license.payload.plan.as_str()));
                match license.payload.expires_at {
                    Some(_) => {
                        append_chars(&mut v, &chars_of(", "));
                        append_chars(&mut v, &chars_of(license.payload.email.as_str()));
                    },
                    None => append_chars(&mut v, &chars_of(", perpetual")),
                }
                append_chars(&mut v, &chars_of(")"));
            },
            Status::Expired { license, .. } => {
                append_chars(&mut v, &chars_of("License expired ("));
                append_chars(&mut v, &chars_of(license.payload.email.as_str()));
                append_chars(&mut v, &chars_of(")"));
            },
            Status::Trial { days_left, .. } => {
                if *days_left == 0 {
                    append_chars(&mut v, &chars_of("Trial ends today"));
                } else if *days_left == 1 {
                    append_chars(&mut v, &chars_of("Trial: 1 day left"));
                } else {
                    append_chars(&mut v, &chars_of("Trial: "));
                    append_chars(&mut v, &unsigned_chars(*days_left as u64));
                    append_chars(&mut v, &chars_of(" days left"));
                }
            },
            Status::TrialExpired { .. } => {
                append_chars(&mut v, &chars_of("Trial expired; a license is required"));
            },
            Status::Invalid { reason } => {
                append_chars(&mut v, &chars_of("License not valid: "));
                append_chars(&mut v, &chars_of(reason.as_str()));
            },
            Status::SelfBuilt => {
                append_chars(&mut v, &chars_of("Built from source (unlicensed build)"));
            },
        }
        assert(v@ == self.text());
        string_of(&v)
    }
}

/// The license file as it was found on disk.
#[derive(Debug)]
pub enum LicenseFile {
    Missing,
    /// It could not be read, for the given reason.
    Unreadable(String),
    Present(String),
}

/// What resolving the entitlement takes.
#[derive(Debug)]
pub enum StatusStep {
    Done(Status),
    /// Decode the payload, then call [`Licensing::licensed_status`].
    Decode(Signed),
    /// Load the trial record, then call [`Licensing::trial_status`].
    Trial,
}

/// Resolves entitlement.
#[derive(Debug)]
pub struct Licensing {
    verifying_key: Option<VerifyingKey>,
}

/// The status that a license leads to.
pub open spec fn is_license_status(license: License, now: i64, status: Status) -> bool {
    match license.payload.expires_at {
        Some(end) => if now >= end {
            status == (Status::Expired { license: Box::new(license), expired_at: end })
        } else {
            status == (Status::Licensed { license: Box::new(license) })
        },
        None => status == (Status::Licensed { license: Box::new(license) }),
    }
}

/// The status for an error.
pub open spec fn is_invalid(status: Status, e: Error) -> bool {
    status is Invalid && status->reason@ == e.text()
}

impl Licensing {
    /// The key that licenses are checked against.
    pub closed spec fn key(&self) -> Option<VerifyingKey> {
        self.verifying_key
    }

    /// Standard setup with the key compiled into the build, base64url encoded.
    /// One that does not decode counts as none.
    pub fn new(embedded: Option<&str>) -> (res: Self)
        ensures
            match res.key() {
                Some(key) => embedded is Some && crate::license::unpacked(embedded->Some_0@) == Some(
                    key@,
                ) && key@.len() == 32 && crate::trusted::ed25519_is_key(key@),
                None => match embedded {
                    None => true,
                    Some(b64) => match crate::license::unpacked(b64@) {
                        Some(bytes) => bytes.len() != 32 || !crate::trusted::ed25519_is_key(bytes),
                        None => true,
                    },
                },
            },
    {
        let verifying_key = match embedded {
            Some(b64) => match verifying_key_from_b64(b64) {
                Ok(key) => Some(key),
                Err(_) => None,
            },
            None => None,
        };
        Licensing { verifying_key }
    }

    /// A source build with no verifying key: always [`Status::SelfBuilt`].
    pub fn unconfigured() -> (res: Self)
        ensures
            res.key() is None,
    {
        Licensing { verifying_key: None }
    }

    /// Explicit wiring, used by tests and by the minting tool.
    pub fn with_key(key: VerifyingKey) -> (res: Self)
        ensures
            res.key() == Some(key),
    {
        Licensing { verifying_key: Some(key) }
    }

    pub fn is_licensing_enforced(&self) -> (res: bool)
        ensures
            res == (self.key() is Some),
    {
        self.verifying_key.is_some()
    }

    /// Check a license key the user pasted in, before anything is written, so
    /// that a bad key never replaces a good one. Decode the payload and finish
    /// with [`License::accept`].
    pub fn check_key(&self, raw: &str) -> (res: Result<Signed>)
        ensures
            match self.key() {
                None => res is Err && res->Err_0 is NoVerifyingKey,
                Some(key) => match key_contents(raw@, key@) {
                    Ok(payload) => res is Ok && res->Ok_0.payload@ == payload && res->Ok_0.raw@
                        == raw@,
                    Err(fault) => res is Err && reports(res->Err_0, fault),
                },
            },
    {
        match &self.verifying_key {
            None => Err(Error::NoVerifyingKey),
            Some(key) => License::verify(raw, key),
        }
    }

    /// How resolving the entitlement begins. An installed license wins over the
    /// trial, expired or not: the user paid, and the message they see should say
    /// so.
    pub fn begin_status(&self, file: LicenseFile) -> (res: StatusStep)
        ensures
            match self.key() {
                None => res == StatusStep::Done(Status::SelfBuilt),
                Some(key) => match file {
                    LicenseFile::Missing => res is Trial,
                    LicenseFile::Unreadable(reason) => res == StatusStep::Done(
                        Status::Invalid { reason },
                    ),
                    LicenseFile::Present(raw) => match key_contents(raw@, key@) {
                        Ok(payload) => res is Decode && res->Decode_0.payload@ == payload
                            && res->Decode_0.raw@ == raw@,
                        Err(fault) => res is Done && exists|e: Error| #[trigger]
                            reports(e, fault) && is_invalid(res->Done_0, e),
                    },
                },
            },
    {
        match &self.verifying_key {
            None => StatusStep::Done(Status::SelfBuilt),
            Some(key) => match file {
                LicenseFile::Missing => StatusStep::Trial,
                LicenseFile::Unreadable(reason) => StatusStep::Done(Status::Invalid { reason }),
                LicenseFile::Present(raw) => match License::verify(raw.as_str(), key) {
                    Ok(signed) => StatusStep::Decode(signed),
                    Err(e) => StatusStep::Done(Status::Invalid { reason: e.message() }),
                },
            },
        }
    }

    /// The entitlement that a verified license key gives, once its payload was
    /// decoded.
    pub fn licensed_status(
        signed: Signed,
        decoded: std::result::Result<LicensePayload, String>,
        now: i64,
    ) -> (res: Status)
        ensures
            match decoded {
                Err(reason) => is_invalid(res, Error::Decode(reason)),
                Ok(payload) => if payload.v != 1 {
                    is_invalid(res, Error::UnsupportedPayloadVersion(payload.v))
                } else {
                    is_license_status(License { payload, raw: signed.raw }, now, res)
                },
            },
    {
        match License::accept(signed, decoded) {
            Ok(license) => match license.payload.expires_at {
                Some(end) => if now >= end {
                    Status::Expired { license: Box::new(license), expired_at: end }
                } else {
                    Status::Licensed { license: Box::new(license) }
                },
                None => Status::Licensed { license: Box::new(license) },
            },
            Err(e) => Status::Invalid { reason: e.message() },
        }
    }

    /// The entitlement that the trial gives.
    pub fn trial_status(loaded: Result<Trial>, now: i64) -> (res: Status)
        requires
            loaded matches Ok(trial) ==> trial.in_range(now),
        ensures
            match loaded {
                Ok(trial) => {
                    let end = trial_end(trial.started_at);
                    if now < end {
                        res == (Status::Trial {
                            days_left: whole_days(end, now as int) as u32,
                            expires_at: end as i64,
                        })
                    } else {
                        res == (Status::TrialExpired { expired_at: end as i64 })
                    }
                },
                Err(e) => is_invalid(res, e),
            },
    {
        match loaded {
            Ok(trial) => if trial.is_active_at(now) {
                Status::Trial {
                    days_left: trial.days_left_at(now),
                    expires_at: trial.expires_at(),
                }
            } else {
                Status::TrialExpired { expired_at: trial.expires_at() }
            },
            Err(e) => Status::Invalid { reason: e.message() },
        }
    }
}

/// A license without an end never expires, whatever the clock says, and one with
/// an end counts until then; either way the trial plays no part.
pub proof fn law_license_supersedes_trial(license: License, now: i64, status: Status)
    requires
        is_license_status(license, now, status),
    ensures
        !(status is Trial) && !(status is TrialExpired),
        status is Licensed <==> !license.payload@.expired_at(now),
        license.payload.expires_at is None ==> status is Licensed,
{
}

} // verus!
