//! Everything that can go wrong inside the engine.

use vstd::prelude::*;
use crate::text::{append_chars, chars_of, decimal, digits, signed_chars, string_of, unsigned_chars};
use crate::trusted::{debug_quoted, lossy_utf8, quote_debug, utf8_lossy};

verus! {

/// Everything that can go wrong inside the engine.
#[derive(Debug, PartialEq)]
pub enum Error {
    /// The embedded database reported a failure.
    Sqlite(String),
    /// A file could not be read or written.
    Io { path: String, reason: String },
    /// There is no home to put a data directory in.
    NoDataDir,
    /// The config file does not parse.
    Config { path: String, reason: String },
    ClipNotFound(i64),
    PinboardNotFound(String),
    ClipTooLarge { limit: usize, actual: usize },
    /// A row id, a use counter or the sequence number is at the largest 64-bit
    /// integer.
    CounterExhausted,
    /// The tables read from disk do not fit together.
    InconsistentTables,
    /// No socket path short enough for the platform could be formed.
    SocketPathTooLong(Vec<u8>),
    /// A directory that should be private belongs to somebody else.
    NotOurDirectory(Vec<u8>),
}

impl Error {
    /// The message shown to a person.
    pub open spec fn text(self) -> Seq<char> {
        match self {
            Error::Sqlite(reason) => "database error: "@ + reason@,
            Error::Io { path, reason } => "i/o error at "@ + path@ + ": "@ + reason@,
            Error::NoDataDir => "could not determine a data directory for the current user"@,
            Error::Config { path, reason } => "config file "@ + path@ + " is invalid: "@ + reason@,
            Error::ClipNotFound(id) => "clip "@ + decimal(id as int) + " not found"@,
            Error::PinboardNotFound(name) => "pinboard "@ + debug_quoted(name@) + " not found"@,
            Error::ClipTooLarge { limit, actual } => "refusing to store a clip larger than "@
                + digits(limit as nat) + " bytes (got "@ + digits(actual as nat) + ")"@,
            Error::CounterExhausted => "a history counter has reached its largest value"@,
            Error::InconsistentTables => "database error: the history tables are inconsistent"@,
            Error::SocketPathTooLong(path) => "control socket path "@ + lossy_utf8(path@)
                + " is too long for this platform. Use a shorter --data-dir, or set PASTEPORT_SOCKET to a short path"@,
            Error::NotOurDirectory(path) => lossy_utf8(path@)
                + " is not owned by the current user; refusing to use it"@,
        }
    }

    /// The message shown to a person.
    pub fn message(&self) -> (res: String)
        ensures
            res@ == self.text(),
    {
        let v: Vec<char> = match self {
            Error::Sqlite(reason) => around("database error: ", &chars_of(reason.as_str()), ""),
            Error::Io { path, reason } => {
                let mut v = around("i/o error at ", &chars_of(path.as_str()), ": ");
                append_chars(&mut v, &chars_of(reason.as_str()));
                v
            },
            Error::NoDataDir => chars_of(
                "could not determine a data directory for the current user",
            ),
            Error::Config { path, reason } => {
                let mut v = around("config file ", &chars_of(path.as_str()), " is invalid: ");
                append_chars(&mut v, &chars_of(reason.as_str()));
                v
            },
            Error::ClipNotFound(id) => around("clip ", &signed_chars(*id), " not found"),
            Error::PinboardNotFound(name) => {
                let quoted = quote_debug(name.as_str());
                around("pinboard ", &chars_of(quoted.as_str()), " not found")
            },
            Error::ClipTooLarge { limit, actual } => {
                let mut v = around(
                    "refusing to store a clip larger than ",
                    &unsigned_chars(*limit as u64),
                    " bytes (got ",
                );
                append_chars(&mut v, &unsigned_chars(*actual as u64));
                append_chars(&mut v, &chars_of(")"));
                v
            },
            Error::CounterExhausted => chars_of("a history counter has reached its largest value"),
            Error::InconsistentTables => chars_of(
                "database error: the history tables are inconsistent",
            ),
            Error::SocketPathTooLong(path) => {
                let shown = utf8_lossy(path);
                around(
                    "control socket path ",
                    &chars_of(shown.as_str()),
                    " is too long for this platform. Use a shorter --data-dir, or set PASTEPORT_SOCKET to a short path",
                )
            },
            Error::NotOurDirectory(path) => {
                let shown = utf8_lossy(path);
                let mut v = chars_of(shown.as_str());
                append_chars(
                    &mut v,
                    &chars_of(" is not owned by the current user; refusing to use it"),
                );
                v
            },
        };
        assert(v@ == self.text()) by {
            reveal_strlit("");
        }
        string_of(&v)
    }
}

/// The text between two literals.
fn around(before: &str, middle: &Vec<char>, after: &str) -> (res: Vec<char>)
    ensures
        res@ == before@ + middle@ + after@,
{
    let mut v = chars_of(before);
    append_chars(&mut v, middle);
    append_chars(&mut v, &chars_of(after));
    v
}

pub type Result<T> = std::result::Result<T, Error>;

} // verus!
