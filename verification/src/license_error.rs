//! What can be wrong with a license.

use vstd::prelude::*;
use crate::text::{append_chars, chars_of, digits, string_of, unsigned_chars};
use crate::trusted::{debug_quoted, quote_debug};

verus! {

#[derive(Debug, PartialEq)]
pub enum Error {
    Malformed(&'static str),
    UnknownFormat(String),
    UnsupportedPayloadVersion(u32),
    BadSignature,
    NoVerifyingKey,
    InvalidVerifyingKey(&'static str),
    /// The payload could not be encoded, for the given reason.
    Encode(String),
    /// The payload could not be decoded, for the given reason.
    Decode(String),
    Io { path: String, reason: String },
}

impl Error {
    /// The message shown to a person.
    pub open spec fn text(self) -> Seq<char> {
        match self {
            Error::Malformed(what) => "license key is malformed: "@ + what@,
            Error::UnknownFormat(prefix) => "license key format "@ + debug_quoted(prefix@)
                + " is not recognised by this version"@,
            Error::UnsupportedPayloadVersion(v) => "license payload version "@ + digits(v as nat)
                + " is newer than this build understands"@,
            Error::BadSignature => "license signature is not valid"@,
            Error::NoVerifyingKey => "this build has no license verifying key compiled in"@,
            Error::InvalidVerifyingKey(what) => "license verifying key is invalid: "@ + what@,
            Error::Encode(reason) => "could not encode license payload: "@ + reason@,
            Error::Decode(reason) => "could not decode license payload: "@ + reason@,
            Error::Io { path, reason } => "i/o error at "@ + path@ + ": "@ + reason@,
        }
    }

    /// The message shown to a person.
    pub fn message(&self) -> (res: String)
        ensures
            res@ == self.text(),
    {
        let v: Vec<char> = match self {
            Error::Malformed(what) => joined_pair("license key is malformed: ", what),
            Error::UnknownFormat(prefix) => {
                let quoted = quote_debug(prefix.as_str());
                let mut v = joined_pair("license key format ", quoted.as_str());
                append_chars(&mut v, &chars_of(" is not recognised by this version"));
                v
            },
            Error::UnsupportedPayloadVersion(version) => {
                let mut v = chars_of("license payload version ");
                append_chars(&mut v, &unsigned_chars(*version as u64));
                append_chars(&mut v, &chars_of(" is newer than this build understands"));
                v
            },
            Error::BadSignature => chars_of("license signature is not valid"),
            Error::NoVerifyingKey => chars_of(
                "this build has no license verifying key compiled in",
            ),
            Error::InvalidVerifyingKey(what) => joined_pair(
                "license verifying key is invalid: ",
                what,
            ),
            Error::Encode(reason) => joined_pair(
                "could not encode license payload: ",
                reason.as_str(),
            ),
            Error::Decode(reason) => joined_pair(
                "could not decode license payload: ",
                reason.as_str(),
            ),
            Error::Io { path, reason } => {
                let mut v = joined_pair("i/o error at ", path.as_str());
                append_chars(&mut v, &chars_of(": "));
                append_chars(&mut v, &chars_of(reason.as_str()));
                v
            },
        };
        assert(v@ == self.text());
        string_of(&v)
    }
}

fn joined_pair(a: &str, b: &str) -> (res: Vec<char>)
    ensures
        res@ == a@ + b@,
{
    let mut v = chars_of(a);
    append_chars(&mut v, &chars_of(b));
    v
}

pub type Result<T> = std::result::Result<T, Error>;

} // verus!
