//! Calls into other crates, with the contracts the rest of the library rests on.
//!
//! Nothing in this module is proved. Each item names the function it calls and
//! says what is claimed of it.

use vstd::prelude::*;
use vstd::utf8::{encode_utf8, valid_utf8};
use crate::search::{
    indexable, is_word_expression, legible, like, like_pattern, pattern_fits, text_fits,
};
use crate::text::{hex, is_ascii_text, is_hex, is_url_char, lowered};
use crate::view::{opt_bytes, opt_str, opt_text};

verus! {

/// The BLAKE3 hash of a message, in hexadecimal.
pub uninterp spec fn blake3_hex(data: Seq<u8>) -> Seq<char>;

/// `blake3::hash` followed by `Hash::to_hex`: the 32-byte digest of the whole
/// input, a function of the input alone, as 64 hexadecimal digits.
#[verifier::external_body]
pub(crate) fn blake3_hash_hex(data: &Vec<u8>) -> (res: String)
    ensures
        res@ == blake3_hex(data@),
        res@.len() == 64,
        forall|i: int| 0 <= i < res@.len() ==> is_hex(#[trigger] res@[i]),
{
    blake3::hash(data.as_slice()).to_hex().as_str().to_string()
}

/// A Unix timestamp in RFC 3339 notation, where the calendar has that date.
pub uninterp spec fn rfc3339(secs: i64) -> Option<Seq<char>>;

/// `time::OffsetDateTime::from_unix_timestamp`, formatted with the well-known
/// `Rfc3339` description: a function of the timestamp alone, `None` where either
/// step reports an error.
#[verifier::external_body]
pub(crate) fn format_rfc3339(secs: i64) -> (res: Option<String>)
    ensures
        opt_text(res) == rfc3339(secs),
{
    time::OffsetDateTime::from_unix_timestamp(secs).ok().and_then(
        |dt| dt.format(&time::format_description::well_known::Rfc3339).ok(),
    )
}

/// `time::OffsetDateTime::now_utc` and its `unix_timestamp`: the system clock in
/// whole seconds. Nothing is claimed of the reading.
#[verifier::external_body]
pub(crate) fn unix_now() -> (res: i64) {
    time::OffsetDateTime::now_utc().unix_timestamp()
}

/// A string in the quoted and escaped notation of Rust's `Debug`.
pub uninterp spec fn debug_quoted(s: Seq<char>) -> Seq<char>;

/// The standard library's `Debug` output for a string slice, a function of the
/// string alone.
#[verifier::external_body]
pub(crate) fn quote_debug(s: &str) -> (res: String)
    ensures
        res@ == debug_quoted(s@),
{
    format!("{s:?}")
}

/// Bytes read as UTF-8, with invalid sequences replaced.
pub uninterp spec fn lossy_utf8(bytes: Seq<u8>) -> Seq<char>;

/// `String::from_utf8_lossy` of the standard library, a function of the bytes
/// alone: valid UTF-8 comes back as the text it encodes.
#[verifier::external_body]
pub(crate) fn utf8_lossy(bytes: &Vec<u8>) -> (res: String)
    ensures
        res@ == lossy_utf8(bytes@),
        valid_utf8(bytes@) ==> encode_utf8(res@) == bytes@,
{
    String::from_utf8_lossy(bytes.as_slice()).into_owned()
}

/// A text in Unicode lower case.
pub uninterp spec fn unicode_lower(s: Seq<char>) -> Seq<char>;

/// `str::to_lowercase` of the standard library, a function of the text alone. On
/// text that is all ASCII it lowers the letters `A` to `Z` and nothing else.
pub assume_specification[ str::to_lowercase ](s: &str) -> (res: String)
    ensures
        res@ == unicode_lower(s@),
        is_ascii_text(s@) ==> res@ == lowered(s@),
;

/// A reading of the standard library's monotonic clock.
#[verifier::external_type_specification]
#[verifier::external_body]
pub struct ExInstant(std::time::Instant);

/// `std::time::Instant::now`: the present reading.
#[verifier::external_body]
pub(crate) fn clock_now() -> (res: std::time::Instant) {
    std::time::Instant::now()
}

/// `std::time::Instant::elapsed` in whole seconds. Nothing is claimed of how
/// many.
#[verifier::external_body]
pub(crate) fn seconds_since(start: &std::time::Instant) -> (res: u64) {
    start.elapsed().as_secs()
}

// ---- base64 ------------------------------------------------------------

/// Bytes in base64 with the standard alphabet and padding.
pub uninterp spec fn base64_standard(bytes: Seq<u8>) -> Seq<char>;

/// `base64::Engine::encode` of the `STANDARD` engine, a function of the bytes
/// alone.
#[verifier::external_body]
pub(crate) fn encode_standard(bytes: &Vec<u8>) -> (res: String)
    ensures
        res@ == base64_standard(bytes@),
{
    base64::Engine::encode(&base64::engine::general_purpose::STANDARD, bytes)
}

/// Bytes in base64 with the URL-safe alphabet and no padding.
pub uninterp spec fn base64_url(bytes: Seq<u8>) -> Seq<char>;

/// The bytes that a URL-safe base64 text without padding stands for, if any.
pub uninterp spec fn base64_url_decoded(text: Seq<char>) -> Option<Seq<u8>>;

/// `base64::Engine::encode` of the `URL_SAFE_NO_PAD` engine: a function of the
/// bytes alone, in the characters of its alphabet, that the same engine decodes
/// to the bytes again.
#[verifier::external_body]
pub(crate) fn encode_url(bytes: &[u8]) -> (res: String)
    ensures
        res@ == base64_url(bytes@),
        base64_url_decoded(res@) == Some(bytes@),
        forall|i: int| 0 <= i < res@.len() ==> is_url_char(#[trigger] res@[i]),
{
    base64::Engine::encode(&base64::engine::general_purpose::URL_SAFE_NO_PAD, bytes)
}

/// `base64::Engine::decode` of the `URL_SAFE_NO_PAD` engine, a function of the
/// text alone; `None` where it reports an error.
#[verifier::external_body]
pub(crate) fn decode_url(text: &str) -> (res: Option<Vec<u8>>)
    ensures
        opt_bytes(res) == base64_url_decoded(text@),
{
    base64::Engine::decode(&base64::engine::general_purpose::URL_SAFE_NO_PAD, text).ok()
}

// ---- Ed25519 -----------------------------------------------------------

/// The Ed25519 public key that belongs to a secret seed.
pub uninterp spec fn ed25519_public(seed: Seq<u8>) -> Seq<u8>;

/// The Ed25519 signature of a message under a secret seed.
pub uninterp spec fn ed25519_signature(seed: Seq<u8>, message: Seq<u8>) -> Seq<u8>;

/// Whether bytes encode a curve point that can serve as a public key.
pub uninterp spec fn ed25519_is_key(bytes: Seq<u8>) -> bool;

/// Whether a signature of a message verifies under a public key.
pub uninterp spec fn ed25519_verifies(
    key: Seq<u8>,
    message: Seq<u8>,
    signature: Seq<u8>,
) -> bool;

/// `ed25519_dalek::SigningKey::from_bytes` and its `verifying_key`: a function of
/// the seed alone, and always a usable public key.
#[verifier::external_body]
pub(crate) fn public_of(seed: &[u8; 32]) -> (res: [u8; 32])
    ensures
        res@ == ed25519_public(seed@),
        ed25519_is_key(res@),
{
    ed25519_dalek::SigningKey::from_bytes(seed).verifying_key().to_bytes()
}

/// `ed25519_dalek::Signer::sign` with the key of a seed: a function of the seed
/// and the message, and it verifies under the public key that belongs to the
/// seed.
#[verifier::external_body]
pub(crate) fn sign_with(seed: &[u8; 32], message: &[u8]) -> (res: [u8; 64])
    ensures
        res@ == ed25519_signature(seed@, message@),
        ed25519_verifies(ed25519_public(seed@), message@, res@),
{
    let key = ed25519_dalek::SigningKey::from_bytes(seed);
    ed25519_dalek::Signer::sign(&key, message).to_bytes()
}

/// Whether `ed25519_dalek::VerifyingKey::from_bytes` accepts the bytes, a
/// function of the bytes alone.
#[verifier::external_body]
pub(crate) fn accepts_key(bytes: &[u8; 32]) -> (res: bool)
    ensures
        res == ed25519_is_key(bytes@),
{
    ed25519_dalek::VerifyingKey::from_bytes(bytes).is_ok()
}

/// Whether `ed25519_dalek::Verifier::verify` accepts a signature of a message, a
/// function of key, message and signature. Bytes that are no public key accept
/// none.
#[verifier::external_body]
pub(crate) fn accepts_signature(key: &[u8; 32], message: &[u8], signature: &[u8; 64]) -> (res: bool)
    ensures
        res == ed25519_verifies(key@, message@, signature@),
{
    let signature = ed25519_dalek::Signature::from_bytes(signature);
    match ed25519_dalek::VerifyingKey::from_bytes(key) {
        Ok(key) => ed25519_dalek::Verifier::verify(&key, message, &signature).is_ok(),
        Err(_) => false,
    }
}

// ---- JSON --------------------------------------------------------------

/// A character inside a JSON string literal: quotes, backslashes and control
/// characters are escaped, five of these by a letter and the others by number.
pub open spec fn json_char(c: char) -> Seq<char> {
    if c == '"' || c == '\\' {
        seq!['\\', c]
    } else if c == '\u{8}' {
        seq!['\\', 'b']
    } else if c == '\t' {
        seq!['\\', 't']
    } else if c == '\n' {
        seq!['\\', 'n']
    } else if c == '\u{c}' {
        seq!['\\', 'f']
    } else if c == '\r' {
        seq!['\\', 'r']
    } else if (c as u32) < 32 {
        seq!['\\', 'u', '0', '0'] + hex(seq![c as u8])
    } else {
        seq![c]
    }
}

/// A string as a JSON string literal.
pub open spec fn json_string(s: Seq<char>) -> Seq<char> {
    seq!['"'] + s.map_values(|c: char| json_char(c)).flatten() + seq!['"']
}

/// `serde_json::to_string` of a string slice: the string between quotes, with the
/// escapes that JSON asks for and no others. Writing a string into memory reports
/// no error.
#[verifier::external_body]
pub(crate) fn quote_json(s: &str) -> (res: Result<String, String>)
    ensures
        res is Ok,
        res->Ok_0@ == json_string(s@),
{
    serde_json::to_string(s).map_err(|e| e.to_string())
}

// ---- SQLite ------------------------------------------------------------

/// A connection of the `rusqlite` crate.
#[verifier::external_type_specification]
#[verifier::external_body]
pub struct ExConnection(rusqlite::Connection);

/// The documents in a scratch connection's full-text index, by row id. A
/// document is an optional text.
pub uninterp spec fn indexed(conn: rusqlite::Connection) -> Map<i64, Option<Seq<char>>>;

/// Whether a connection has SQLite's default limits on sizes: texts of up to a
/// billion bytes, and `LIKE` patterns of up to fifty thousand.
pub uninterp spec fn has_default_limits(conn: rusqlite::Connection) -> bool;

/// Whether a connection has the full-text table.
pub uninterp spec fn has_index(conn: rusqlite::Connection) -> bool;

/// Whether a connection keeps its temporary material in memory.
pub uninterp spec fn spills_nothing(conn: rusqlite::Connection) -> bool;

/// Whether a document with the given text satisfies an FTS5 match expression,
/// under the `unicode61` tokenizer with diacritics removed.
pub uninterp spec fn fts5_matches(text: Seq<char>, expr: Seq<char>) -> bool;

/// What SQLite answers to `text LIKE pattern ESCAPE '\\'`.
pub uninterp spec fn sqlite_like(text: Seq<char>, pattern: Seq<char>) -> bool;

/// `rusqlite::Connection::open_in_memory`: a private database that no other
/// connection reaches, with nothing indexed and with the default limits. An error
/// comes as its message.
#[verifier::external_body]
pub(crate) fn open_scratch() -> (res: Result<rusqlite::Connection, String>)
    ensures
        res is Ok ==> indexed(res->Ok_0).dom() == Set::<i64>::empty(),
        res is Ok ==> has_default_limits(res->Ok_0),
{
    rusqlite::Connection::open_in_memory().map_err(|e| e.to_string())
}

/// `rusqlite::Connection::pragma_update` of `temp_store`: sorting never goes to a
/// file from then on. An error comes as its message. What is indexed and the
/// limits stay as they are.
#[verifier::external_body]
pub(crate) fn keep_temp_in_memory(conn: &mut rusqlite::Connection) -> (res: Result<(), String>)
    ensures
        res is Ok ==> spills_nothing(*final(conn)),
        indexed(*final(conn)) == indexed(*old(conn)),
        has_default_limits(*final(conn)) == has_default_limits(*old(conn)),
{
    conn.pragma_update(None, "temp_store", "MEMORY").map_err(|e| e.to_string())
}

/// `rusqlite::Connection::execute_batch` with the statement that creates the
/// full-text table. FTS5 is a compile-time option of SQLite, so it may report an
/// error, which comes as its message. Creating a table adds no document and
/// changes no setting.
#[verifier::external_body]
pub(crate) fn create_index(conn: &mut rusqlite::Connection) -> (res: Result<(), String>)
    ensures
        res is Ok ==> has_index(*final(conn)),
        indexed(*final(conn)) == indexed(*old(conn)),
        has_default_limits(*final(conn)) == has_default_limits(*old(conn)),
        spills_nothing(*final(conn)) == spills_nothing(*old(conn)),
{
    conn.execute_batch(
        "CREATE VIRTUAL TABLE clips_fts USING fts5(text, tokenize='unicode61 remove_diacritics 2')",
    ).map_err(|e| e.to_string())
}

/// `rusqlite::Connection::execute` with an insert of one document. A statement
/// that reports an error has no effect; the error comes as its message. With the
/// table there, an id that is not taken, and a text well within the limits, it
/// reports none, as long as SQLite gets the memory it asks for. The settings stay
/// as they are.
#[verifier::external_body]
pub(crate) fn index_put(conn: &mut rusqlite::Connection, id: i64, text: Option<&str>) -> (res:
    Result<usize, String>)
    ensures
        res is Ok ==> indexed(*final(conn)) == indexed(*old(conn)).insert(id, opt_str(text)),
        res is Err ==> indexed(*final(conn)) == indexed(*old(conn)),
        has_index(*old(conn)) && has_default_limits(*old(conn)) && !indexed(*old(conn)).contains_key(
            id,
        ) && indexable(opt_str(text)) ==> res is Ok,
        has_index(*final(conn)) == has_index(*old(conn)),
        has_default_limits(*final(conn)) == has_default_limits(*old(conn)),
        spills_nothing(*final(conn)) == spills_nothing(*old(conn)),
{
    conn.execute("INSERT INTO clips_fts(rowid, text) VALUES (?1, ?2)", (id, text)).map_err(
        |e| e.to_string(),
    )
}

/// `rusqlite::Connection::execute` with a delete of one document. A statement
/// that reports an error has no effect; the error comes as its message. With the
/// table there it reports none, as long as SQLite gets the memory it asks for. The
/// settings stay as they are.
#[verifier::external_body]
pub(crate) fn index_remove(conn: &mut rusqlite::Connection, id: i64) -> (res: Result<usize, String>)
    ensures
        res is Ok ==> indexed(*final(conn)) == indexed(*old(conn)).remove(id),
        res is Err ==> indexed(*final(conn)) == indexed(*old(conn)),
        has_index(*old(conn)) ==> res is Ok,
        has_index(*final(conn)) == has_index(*old(conn)),
        has_default_limits(*final(conn)) == has_default_limits(*old(conn)),
        spills_nothing(*final(conn)) == spills_nothing(*old(conn)),
{
    conn.execute("DELETE FROM clips_fts WHERE rowid = ?1", [id]).map_err(|e| e.to_string())
}

/// A match expression evaluated over the index, through
/// `rusqlite::Statement::query_map`: the row ids of the documents that satisfy
/// it, each once, with a relevance level. The levels come from `bm25`, which
/// computes in floating point: equal scores share a level and better scores have
/// smaller ones. Nothing is claimed of which document scores better. Quoted words
/// without null characters, joined by `AND`, are a well-formed expression: with
/// the table there and nothing that goes to a file no error comes, as long as
/// SQLite gets the memory it asks for.
#[verifier::external_body]
pub(crate) fn index_match(conn: &rusqlite::Connection, expr: &str) -> (res: Result<
    Vec<(i64, i64)>,
    String,
>)
    ensures
        res is Ok ==> forall|i: int, j: int|
            0 <= i < j < res->Ok_0@.len() ==> res->Ok_0@[i].0 != res->Ok_0@[j].0,
        res is Ok ==> forall|id: i64|
            (exists|i: int| 0 <= i < res->Ok_0@.len() && (#[trigger] res->Ok_0@[i]).0 == id) <==> (
            #[trigger] indexed(*conn).contains_key(id) && (indexed(*conn)[id] matches Some(t)
                && fts5_matches(t, expr@))),
        has_index(*conn) && has_default_limits(*conn) && spills_nothing(*conn) && text_fits(expr@)
            && is_word_expression(expr@) ==> res is Ok,
{
    let mut stmt = conn.prepare_cached(
        "WITH m AS MATERIALIZED (SELECT rowid AS id, bm25(clips_fts) AS score FROM clips_fts
           WHERE clips_fts MATCH ?1)
         SELECT id, dense_rank() OVER (ORDER BY score) FROM m ORDER BY 2, 1",
    ).map_err(|e| e.to_string())?;
    let rows = stmt.query_map([expr], |r| Ok((r.get(0)?, r.get(1)?))).map_err(|e| e.to_string())?;
    rows.collect::<rusqlite::Result<Vec<(i64, i64)>>>().map_err(|e| e.to_string())
}

/// The `LIKE` operator of SQLite with a backslash as escape character, through
/// `rusqlite::Statement::query_row`: a function of its operands. On text and
/// patterns free of the characters that SQLite cannot tell apart it is [`like`].
/// The pattern is one that looks a query up, with no wildcard but the outer two,
/// since SQLite recurses for each. With the default limits it reports an error
/// exactly where the text or the pattern is beyond them, as long as SQLite gets the
/// memory it asks for.
#[verifier::external_body]
pub(crate) fn eval_like(conn: &rusqlite::Connection, text: &str, pattern: &str) -> (res: Result<
    bool,
    String,
>)
    requires
        exists|query: Seq<char>| pattern@ == #[trigger] like_pattern(query),
    ensures
        res is Ok ==> res->Ok_0 == sqlite_like(text@, pattern@),
        res is Ok && legible(text@) && legible(pattern@) ==> res->Ok_0 == like(pattern@, text@),
        has_default_limits(*conn) ==> res is Ok == (pattern_fits(pattern@) && text_fits(text@)),
{
    let mut stmt = conn.prepare_cached("SELECT ?1 LIKE ?2 ESCAPE '\\'").map_err(|e| e.to_string())?;
    stmt.query_row([text, pattern], |r| r.get(0)).map_err(|e| e.to_string())
}

} // verus!
