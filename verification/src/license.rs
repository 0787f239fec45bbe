//! License keys: an Ed25519 signature over a small JSON payload, checked offline.

use vstd::prelude::*;
use vstd::utf8::encode_utf8;
use crate::license_error::{Error, Result};
use crate::seqs::{lemma_filter_all, lemma_filter_step, lemma_sweep_ends};
use crate::text::{
    append_chars, chars_of, decimal, digits, is_url_char, is_white, lemma_segments_append,
    lemma_segments_single, owned, same_chars, segments, signed_chars, split_segments, string_of, trim,
    trim_chars, unsigned_chars,
};
use crate::trusted::{
    accepts_key, accepts_signature, base64_url, base64_url_decoded, decode_url, ed25519_is_key,
    ed25519_public, ed25519_signature, ed25519_verifies, encode_url, json_string, public_of,
    quote_json, sign_with,
};
use crate::view::{append_bytes, opt_bytes};

verus! {

/// Key format prefix, so a future signing scheme can coexist with this one.
pub const KEY_PREFIX: &'static str = "PP1";

/// What the customer bought.
#[derive(Debug, Clone, Copy, PartialEq, Eq, Structural)]
pub enum Plan {
    /// One person, all their machines.
    Personal,
    /// Seat-based, for organizations.
    Team,
    /// Perpetual: never expires.
    Lifetime,
}

impl Plan {
    /// The plan's name.
    pub open spec fn text(self) -> Seq<char> {
        match self {
            Plan::Personal => "personal"@,
            Plan::Team => "team"@,
            Plan::Lifetime => "lifetime"@,
        }
    }

    pub fn as_str(self) -> (res: &'static str)
        ensures
            res@ == self.text(),
    {
        match self {
            Plan::Personal => "personal",
            Plan::Team => "team",
            Plan::Lifetime => "lifetime",
        }
    }
}

/// The signed contents of a license key.
///
/// Field names are short because they travel inside the key the customer pastes
/// in, and every byte shows up in that string.
#[derive(Debug, PartialEq, Eq)]
pub struct LicensePayload {
    /// Payload format version.
    pub v: u32,
    /// Opaque license id, for support lookups.
    pub id: String,
    /// Who it was issued to.
    pub email: String,
    pub plan: Plan,
    /// Seats for [`Plan::Team`], otherwise 1.
    pub seats: u32,
    /// Unix seconds.
    pub issued_at: i64,
    /// Unix seconds, or `None` for a perpetual license.
    pub expires_at: Option<i64>,
}

/// The content of a [`LicensePayload`].
pub struct PayloadView {
    pub v: u32,
    pub id: Seq<char>,
    pub email: Seq<char>,
    pub plan: Plan,
    pub seats: u32,
    pub issued_at: i64,
    pub expires_at: Option<i64>,
}

impl View for LicensePayload {
    type V = PayloadView;

    open spec fn view(&self) -> PayloadView {
        PayloadView {
            v: self.v,
            id: self.id@,
            email: self.email@,
            plan: self.plan,
            seats: self.seats,
            issued_at: self.issued_at,
            expires_at: self.expires_at,
        }
    }
}

impl Clone for LicensePayload {
    fn clone(&self) -> (res: Self)
        ensures
            res@ == self@,
    {
        LicensePayload {
            v: self.v,
            id: self.id.clone(),
            email: self.email.clone(),
            plan: self.plan,
            seats: self.seats,
            issued_at: self.issued_at,
            expires_at: self.expires_at,
        }
    }
}

impl PayloadView {
    /// Whether the term has ended.
    pub open spec fn expired_at(self, now: i64) -> bool {
        match self.expires_at {
            Some(end) => now >= end,
            None => false,
        }
    }

    /// The JSON text that is signed: one object, fields in a fixed order, no
    /// spaces.
    pub open spec fn json(self) -> Seq<char> {
        "{\"v\":"@ + digits(self.v as nat) + ",\"id\":"@ + json_string(self.id) + ",\"email\":"@
            + json_string(self.email) + ",\"plan\":\""@ + self.plan.text() + "\",\"seats\":"@
            + digits(self.seats as nat) + ",\"issued_at\":"@ + decimal(self.issued_at as int)
            + ",\"expires_at\":"@ + (match self.expires_at {
            Some(end) => decimal(end as int),
            None => "null"@,
        }) + "}"@
    }
}

impl LicensePayload {
    pub fn is_expired_at(&self, now: i64) -> (res: bool)
        ensures
            res == self@.expired_at(now),
    {
        match self.expires_at {
            Some(end) => now >= end,
            None => false,
        }
    }

    /// Canonical bytes that get signed. Byte-stable: plain JSON with a fixed
    /// field order.
    pub fn signing_bytes(&self) -> (res: Result<Vec<u8>>)
        ensures
            res is Ok,
            res->Ok_0@ == encode_utf8(self@.json()),
    {
        let id = match quote_json(self.id.as_str()) {
            Ok(s) => s,
            Err(reason) => {
                return Err(Error::Encode(reason));
            },
        };
        let email = match quote_json(self.email.as_str()) {
            Ok(s) => s,
            Err(reason) => {
                return Err(Error::Encode(reason));
            },
        };
        let mut v = chars_of("{\"v\":");
        append_chars(&mut v, &unsigned_chars(self.v as u64));
        append_chars(&mut v, &chars_of(",\"id\":"));
        append_chars(&mut v, &chars_of(id.as_str()));
        append_chars(&mut v, &chars_of(",\"email\":"));
        append_chars(&mut v, &chars_of(email.as_str()));
        append_chars(&mut v, &chars_of(",\"plan\":\""));
        append_chars(&mut v, &chars_of(self.plan.as_str()));
        append_chars(&mut v, &chars_of("\",\"seats\":"));
        append_chars(&mut v, &unsigned_chars(self.seats as u64));
        append_chars(&mut v, &chars_of(",\"issued_at\":"));
        append_chars(&mut v, &signed_chars(self.issued_at));
        append_chars(&mut v, &chars_of(",\"expires_at\":"));
        match self.expires_at {
            Some(end) => append_chars(&mut v, &signed_chars(end)),
            None => append_chars(&mut v, &chars_of("null")),
        }
        append_chars(&mut v, &chars_of("}"));
        assert(v@ == self@.json());
        let text = string_of(&v);
        let mut bytes: Vec<u8> = Vec::new();
        append_bytes(&mut bytes, text.as_str().as_bytes());
        assert(bytes@ == encode_utf8(self@.json()));
        Ok(bytes)
    }
}

/// An Ed25519 public key that license signatures are checked against.
#[derive(Debug, Clone, Copy, PartialEq, Eq)]
pub struct VerifyingKey {
    bytes: [u8; 32],
}

impl VerifyingKey {
    /// The key's bytes.
    pub closed spec fn view(&self) -> Seq<u8> {
        self.bytes@
    }

    /// The key's bytes.
    pub fn to_bytes(&self) -> (res: [u8; 32])
        ensures
            res@ == self@,
    {
        self.bytes
    }
}

/// The first 32 of some bytes, as an array.
fn array32(v: &Vec<u8>) -> (res: [u8; 32])
    requires
        v@.len() == 32,
    ensures
        res@ == v@,
{
    let mut out: [u8; 32] = [0u8; 32];
    let mut i: usize = 0;
    while i < 32
        invariant
            i <= 32,
            v@.len() == 32,
            out@.len() == 32,
            forall|j: int| 0 <= j < i ==> out@[j] == v@[j],
        decreases 32 - i,
    {
        out[i] = v[i];
        i += 1;
    }
    assert(out@ == v@);
    out
}

/// The first 64 of some bytes, as an array.
fn array64(v: &Vec<u8>) -> (res: [u8; 64])
    requires
        v@.len() == 64,
    ensures
        res@ == v@,
{
    let mut out: [u8; 64] = [0u8; 64];
    let mut i: usize = 0;
    while i < 64
        invariant
            i <= 64,
            v@.len() == 64,
            out@.len() == 64,
            forall|j: int| 0 <= j < i ==> out@[j] == v@[j],
        decreases 64 - i,
    {
        out[i] = v[i];
        i += 1;
    }
    assert(out@ == v@);
    out
}

/// The bytes of a base64url text, blanks around it aside.
pub open spec fn unpacked(b64: Seq<char>) -> Option<Seq<u8>> {
    base64_url_decoded(trim(b64))
}

fn unpack(b64: &str) -> (res: Option<Vec<u8>>)
    ensures
        opt_bytes(res) == unpacked(b64@),
{
    let trimmed = string_of(&trim_chars(&chars_of(b64)));
    decode_url(trimmed.as_str())
}

/// Decode a base64url-encoded Ed25519 public key.
pub fn verifying_key_from_b64(b64: &str) -> (res: Result<VerifyingKey>)
    ensures
        match res {
            Ok(key) => unpacked(b64@) == Some(key@) && key@.len() == 32 && ed25519_is_key(key@),
            Err(e) => e is InvalidVerifyingKey && match unpacked(b64@) {
                None => e->InvalidVerifyingKey_0@ == "not base64url"@,
                Some(bytes) => if bytes.len() != 32 {
                    e->InvalidVerifyingKey_0@ == "not 32 bytes"@
                } else {
                    !ed25519_is_key(bytes) && e->InvalidVerifyingKey_0@
                        == "not a valid Ed25519 point"@
                },
            },
        },
{
    match unpack(b64) {
        None => Err(Error::InvalidVerifyingKey("not base64url")),
        Some(bytes) => {
            if bytes.len() != 32 {
                return Err(Error::InvalidVerifyingKey("not 32 bytes"));
            }
            let bytes = array32(&bytes);
            if accepts_key(&bytes) {
                Ok(VerifyingKey { bytes })
            } else {
                Err(Error::InvalidVerifyingKey("not a valid Ed25519 point"))
            }
        },
    }
}

// ---- keys --------------------------------------------------------------

/// A key without the whitespace and line breaks an email adds.
pub open spec fn normalized(raw: Seq<char>) -> Seq<char> {
    raw.filter(|c: char| !is_white(c))
}

fn normalize(raw: &str) -> (res: Vec<char>)
    ensures
        res@ == normalized(raw@),
{
    let all = chars_of(raw);
    let mut out: Vec<char> = Vec::new();
    let ghost keep = |c: char| !is_white(c);
    proof {
        lemma_sweep_ends(all@, keep);
    }
    for i in 0..all.len()
        invariant
            keep == (|c: char| !is_white(c)),
            out@ == all@.take(i as int).filter(keep),
    {
        proof {
            lemma_filter_step(all@, keep, i as int);
        }
        if !all[i].is_whitespace() {
            out.push(all[i]);
        }
    }
    assert(all@.take(all@.len() as int) == all@);
    out
}

/// What is wrong with a key.
pub enum Fault {
    Malformed(Seq<char>),
    UnknownFormat(Seq<char>),
    BadSignature,
}

/// The signed bytes in a key, or what is wrong with it, checked in this order:
/// three segments, the prefix, base64url in both of the others, the signature's
/// length, and the signature.
pub open spec fn key_contents(raw: Seq<char>, key: Seq<u8>) -> std::result::Result<
    Seq<u8>,
    Fault,
> {
    let parts = segments(normalized(raw), '.');
    if parts.len() < 2 {
        Err(Fault::Malformed("missing payload segment"@))
    } else if parts.len() < 3 {
        Err(Fault::Malformed("missing signature segment"@))
    } else if parts.len() > 3 {
        Err(Fault::Malformed("too many segments"@))
    } else if parts[0] != KEY_PREFIX@ {
        Err(Fault::UnknownFormat(parts[0]))
    } else {
        match (base64_url_decoded(parts[1]), base64_url_decoded(parts[2])) {
            (None, _) => Err(Fault::Malformed("payload is not base64url"@)),
            (_, None) => Err(Fault::Malformed("signature is not base64url"@)),
            (Some(payload), Some(signature)) => if signature.len() != 64 {
                Err(Fault::Malformed("signature is not 64 bytes"@))
            } else if !ed25519_verifies(key, payload, signature) {
                Err(Fault::BadSignature)
            } else {
                Ok(payload)
            },
        }
    }
}

/// Whether an error reports a fault.
pub open spec fn reports(e: Error, fault: Fault) -> bool {
    match fault {
        Fault::Malformed(what) => e is Malformed && e->Malformed_0@ == what,
        Fault::UnknownFormat(prefix) => e is UnknownFormat && e->UnknownFormat_0@ == prefix,
        Fault::BadSignature => e is BadSignature,
    }
}

/// The contents of a key whose signature verified, not yet decoded.
#[derive(Debug)]
pub struct Signed {
    /// The signed payload bytes.
    pub payload: Vec<u8>,
    /// The key string as the customer entered it, for display and re-saving.
    pub raw: String,
}

/// A license key that has been parsed and cryptographically verified.
#[derive(Debug, PartialEq, Eq)]
pub struct License {
    pub payload: LicensePayload,
    /// The key string as the customer entered it, for display and re-saving.
    pub raw: String,
}

impl Clone for License {
    fn clone(&self) -> (res: Self)
        ensures
            res.payload@ == self.payload@,
            res.raw@ == self.raw@,
    {
        License { payload: self.payload.clone(), raw: self.raw.clone() }
    }
}

impl License {
    /// Take apart a license key and verify it against `key`.
    ///
    /// The signature comes before anything else is trusted: an unsigned or
    /// tampered key is never decoded and never reaches policy checks. Decode the
    /// payload bytes and finish with [`License::accept`].
    pub fn verify(raw: &str, key: &VerifyingKey) -> (res: Result<Signed>)
        ensures
            match key_contents(raw@, key@) {
                Ok(payload) => res is Ok && res->Ok_0.payload@ == payload && res->Ok_0.raw@
                    == raw@,
                Err(fault) => res is Err && reports(res->Err_0, fault),
            },
    {
        let text = normalize(raw);
        let parts = split_segments(&text, '.');
        let ghost v = segments(text@, '.');
        assert(v.len() == parts@.len());
        assert(forall|i: int| 0 <= i < v.len() ==> v[i] == (#[trigger] parts@[i])@);
        if parts.len() < 2 {
            return Err(Error::Malformed("missing payload segment"));
        }
        if parts.len() < 3 {
            return Err(Error::Malformed("missing signature segment"));
        }
        if parts.len() > 3 {
            return Err(Error::Malformed("too many segments"));
        }
        if !same_chars(&parts[0], &chars_of(KEY_PREFIX)) {
            return Err(Error::UnknownFormat(string_of(&parts[0])));
        }
        let payload_b64 = string_of(&parts[1]);
        let payload = match decode_url(payload_b64.as_str()) {
            Some(bytes) => bytes,
            None => {
                return Err(Error::Malformed("payload is not base64url"));
            },
        };
        let sig_b64 = string_of(&parts[2]);
        let sig = match decode_url(sig_b64.as_str()) {
            Some(bytes) => bytes,
            None => {
                return Err(Error::Malformed("signature is not base64url"));
            },
        };
        if sig.len() != 64 {
            return Err(Error::Malformed("signature is not 64 bytes"));
        }
        if !accepts_signature(&key.bytes, payload.as_slice(), &array64(&sig)) {
            return Err(Error::BadSignature);
        }
        Ok(Signed { payload, raw: owned(raw) })
    }

    /// Finish with a verified key once its payload was decoded: only the payload
    /// version is left to check.
    pub fn accept(
        signed: Signed,
        decoded: std::result::Result<LicensePayload, String>,
    ) -> (res: Result<License>)
        ensures
            match decoded {
                Err(reason) => res is Err && res->Err_0 is Decode && res->Err_0->Decode_0@
                    == reason@,
                Ok(payload) => if payload.v != 1 {
                    res is Err && res->Err_0 == Error::UnsupportedPayloadVersion(payload.v)
                } else {
                    res is Ok && res->Ok_0.payload == payload && res->Ok_0.raw == signed.raw
                },
            },
    {
        match decoded {
            Err(reason) => Err(Error::Decode(reason)),
            Ok(payload) => {
                if payload.v != 1 {
                    return Err(Error::UnsupportedPayloadVersion(payload.v));
                }
                Ok(License { payload, raw: signed.raw })
            },
        }
    }

    /// The beginning of the license id, safe to show in a user interface or a
    /// log.
    pub fn masked(&self) -> (res: String)
        ensures
            res@ == self.payload.id@.take(
                if self.payload.id@.len() < 6 {
                    self.payload.id@.len() as int
                } else {
                    6
                },
            ).push('\u{2026}'),
    {
        let id = chars_of(self.payload.id.as_str());
        let n = if id.len() < 6 {
            id.len()
        } else {
            6
        };
        let mut shown = crate::text::slice_chars(&id, 0, n);
        assert(shown@ == id@.take(n as int));
        shown.push('\u{2026}');
        string_of(&shown)
    }
}

/// A key assembled from its parts.
pub open spec fn assembled(payload: Seq<u8>, signature: Seq<u8>) -> Seq<char> {
    KEY_PREFIX@ + seq!['.'] + base64_url(payload) + seq!['.'] + base64_url(signature)
}

/// What a key made of a payload and a signature gives under a public key: the
/// payload where the signature verifies, and nothing else.
pub open spec fn opened(
    payload: Seq<u8>,
    signature: Seq<u8>,
    key: Seq<u8>,
) -> std::result::Result<Seq<u8>, Fault> {
    if ed25519_verifies(key, payload, signature) {
        Ok(payload)
    } else {
        Err(Fault::BadSignature)
    }
}

/// Encode a signed key from its parts. A key made this way gives the payload back
/// under every public key that the signature verifies under, and is refused for
/// its signature under every other.
pub fn encode_key(payload_bytes: &[u8], signature: &[u8; 64]) -> (res: String)
    ensures
        res@ == assembled(payload_bytes@, signature@),
        forall|key: Seq<u8>| #[trigger]
            key_contents(res@, key) == opened(payload_bytes@, signature@, key),
{
    let payload = encode_url(payload_bytes);
    let sig = encode_url(signature.as_slice());
    let mut v = chars_of(KEY_PREFIX);
    v.push('.');
    append_chars(&mut v, &chars_of(payload.as_str()));
    v.push('.');
    append_chars(&mut v, &chars_of(sig.as_str()));
    assert(v@ == assembled(payload_bytes@, signature@));
    proof {
        let prefix = KEY_PREFIX@;
        assert(forall|i: int| 0 <= i < prefix.len() ==> is_url_char(#[trigger] prefix[i])) by {
            reveal_strlit("PP1");
        }
        lemma_key_segments(prefix, payload@, sig@);
        assert forall|key: Seq<u8>| #[trigger]
            key_contents(v@, key) == opened(payload_bytes@, signature@, key) by {
            lemma_key_opens(payload_bytes@, signature@, key);
        }
    }
    string_of(&v)
}

/// A text of URL-safe characters holds neither dots nor blanks.
proof fn lemma_url_text(s: Seq<char>)
    requires
        forall|i: int| 0 <= i < s.len() ==> is_url_char(#[trigger] s[i]),
    ensures
        !s.contains('.'),
        s.filter(|c: char| !is_white(c)) == s,
{
    assert forall|i: int| 0 <= i < s.len() implies !is_white(#[trigger] s[i]) && s[i] != '.' by {}
    lemma_filter_all(s, |c: char| !is_white(c));
}

/// Three dotted parts of URL-safe characters come apart again.
proof fn lemma_key_segments(prefix: Seq<char>, payload: Seq<char>, sig: Seq<char>)
    requires
        forall|i: int| 0 <= i < prefix.len() ==> is_url_char(#[trigger] prefix[i]),
        forall|i: int| 0 <= i < payload.len() ==> is_url_char(#[trigger] payload[i]),
        forall|i: int| 0 <= i < sig.len() ==> is_url_char(#[trigger] sig[i]),
    ensures
        segments(
            normalized(prefix + seq!['.'] + payload + seq!['.'] + sig),
            '.',
        ) == seq![prefix, payload, sig],
{
    let keep = |c: char| !is_white(c);
    let head = prefix + seq!['.'] + payload;
    let key = head + seq!['.'] + sig;
    lemma_url_text(prefix);
    lemma_url_text(payload);
    lemma_url_text(sig);
    lemma_filter_all(seq!['.'], keep);
    Seq::filter_distributes_over_add(prefix, seq!['.'], keep);
    Seq::filter_distributes_over_add(prefix + seq!['.'], payload, keep);
    Seq::filter_distributes_over_add(head, seq!['.'], keep);
    Seq::filter_distributes_over_add(head + seq!['.'], sig, keep);
    assert(normalized(key) == key);
    lemma_segments_single(prefix, '.');
    lemma_segments_append(prefix, payload, '.');
    assert(prefix.push('.') + payload == head);
    lemma_segments_append(head, sig, '.');
    assert(head.push('.') + sig == key);
    assert(seq![prefix].push(payload).push(sig) == seq![prefix, payload, sig]);
}

proof fn lemma_key_opens(payload: Seq<u8>, signature: Seq<u8>, key: Seq<u8>)
    requires
        base64_url_decoded(base64_url(payload)) == Some(payload),
        base64_url_decoded(base64_url(signature)) == Some(signature),
        signature.len() == 64,
        segments(normalized(assembled(payload, signature)), '.') == seq![
            KEY_PREFIX@,
            base64_url(payload),
            base64_url(signature),
        ],
    ensures
        key_contents(assembled(payload, signature), key) == opened(payload, signature, key),
{
}

/// Whitespace anywhere in a key makes no difference.
pub proof fn law_key_whitespace_is_ignored(
    before: Seq<char>,
    blank: char,
    after: Seq<char>,
    key: Seq<u8>,
)
    requires
        is_white(blank),
    ensures
        key_contents(before + seq![blank] + after, key) == key_contents(before + after, key),
{
    let keep = |c: char| !is_white(c);
    Seq::filter_distributes_over_add(before + seq![blank], after, keep);
    Seq::filter_distributes_over_add(before, seq![blank], keep);
    Seq::filter_distributes_over_add(before, after, keep);
    crate::seqs::lemma_filter_none(seq![blank], keep);
    assert(seq![blank].filter(keep) == Seq::<char>::empty());
    assert(before.filter(keep) + Seq::<char>::empty() == before.filter(keep));
}

/// A key that opens under one public key is refused for its signature under
/// every other that the signature does not verify under. Nothing else can be
/// wrong with it, and it never gives another payload.
pub proof fn law_other_signer_is_refused(raw: Seq<char>, signer: Seq<u8>, other: Seq<u8>)
    requires
        key_contents(raw, signer) is Ok,
    ensures
        key_contents(raw, other) == opened(
            key_contents(raw, signer)->Ok_0,
            base64_url_decoded(segments(normalized(raw), '.')[2])->Some_0,
            other,
        ),
{
}

/// A key put together from the payload of one key and the signature of another
/// is refused for its signature, unless that signature verifies for the payload.
pub proof fn law_swapped_payload_is_refused(
    raw: Seq<char>,
    donor: Seq<char>,
    forged: Seq<char>,
    key: Seq<u8>,
)
    requires
        key_contents(raw, key) is Ok,
        key_contents(donor, key) is Ok,
        segments(normalized(forged), '.') == segments(normalized(raw), '.').update(
            1,
            segments(normalized(donor), '.')[1],
        ),
    ensures
        key_contents(forged, key) == opened(
            key_contents(donor, key)->Ok_0,
            base64_url_decoded(segments(normalized(raw), '.')[2])->Some_0,
            key,
        ),
{
}

/// A key opens only where its signature verifies: whatever is taken from a key is
/// signed under the public key it was checked against.
pub proof fn law_only_signed_keys_open(raw: Seq<char>, key: Seq<u8>)
    requires
        key_contents(raw, key) is Ok,
    ensures
        exists|signature: Seq<u8>| #[trigger]
            ed25519_verifies(key, key_contents(raw, key)->Ok_0, signature),
{
    let parts = segments(normalized(raw), '.');
    let signature = base64_url_decoded(parts[2])->Some_0;
    assert(ed25519_verifies(key, key_contents(raw, key)->Ok_0, signature));
}

// ---- minting -----------------------------------------------------------

/// Holds the private half of the license signing key.
///
/// This lives on the vendor's machine (or a signing service), never in a
/// distributed build.
#[derive(Debug)]
pub struct Minter {
    seed: [u8; 32],
}

impl Minter {
    /// The secret seed.
    pub closed spec fn secret(&self) -> Seq<u8> {
        self.seed@
    }

    /// Build a minter from a 32-byte seed.
    pub fn from_seed(seed: &[u8; 32]) -> (res: Self)
        ensures
            res.secret() == seed@,
    {
        Minter { seed: *seed }
    }

    /// Build a minter from a base64url-encoded 32-byte seed.
    pub fn from_seed_b64(seed_b64: &str) -> (res: Result<Self>)
        ensures
            match unpacked(seed_b64@) {
                None => res is Err && res->Err_0 is InvalidVerifyingKey
                    && res->Err_0->InvalidVerifyingKey_0@ == "seed is not base64url"@,
                Some(bytes) => if bytes.len() != 32 {
                    res is Err && res->Err_0 is InvalidVerifyingKey
                        && res->Err_0->InvalidVerifyingKey_0@ == "seed is not 32 bytes"@
                } else {
                    res is Ok && res->Ok_0.secret() == bytes
                },
            },
    {
        match unpack(seed_b64) {
            None => Err(Error::InvalidVerifyingKey("seed is not base64url")),
            Some(bytes) => {
                if bytes.len() != 32 {
                    return Err(Error::InvalidVerifyingKey("seed is not 32 bytes"));
                }
                Ok(Minter { seed: array32(&bytes) })
            },
        }
    }

    pub fn verifying_key(&self) -> (res: VerifyingKey)
        ensures
            res@ == ed25519_public(self.secret()),
            ed25519_is_key(res@),
    {
        VerifyingKey { bytes: public_of(&self.seed) }
    }

    /// The public key to compile into release builds, base64url encoded. It
    /// decodes to the public key again.
    pub fn verifying_key_b64(&self) -> (res: String)
        ensures
            res@ == base64_url(ed25519_public(self.secret())),
            unpacked(res@) == Some(ed25519_public(self.secret())),
    {
        let key = public_of(&self.seed);
        let packed = encode_url(key.as_slice());
        proof {
            lemma_packed_is_trim(packed@);
        }
        packed
    }

    /// The private seed, base64url encoded. Treat as a secret. It decodes to the
    /// seed again.
    pub fn seed_b64(&self) -> (res: String)
        ensures
            res@ == base64_url(self.secret()),
            unpacked(res@) == Some(self.secret()),
    {
        let packed = encode_url(self.seed.as_slice());
        proof {
            lemma_packed_is_trim(packed@);
        }
        packed
    }

    /// Sign a payload into a distributable license key. The key opens under the
    /// public key that belongs to the seed, and gives the payload's bytes back.
    /// Under a public key that the signature does not verify under it is refused.
    /// That no other signer's public key accepts the signature is what Ed25519 is
    /// designed for; no contract here says so.
    pub fn sign(&self, payload: &LicensePayload) -> (res: Result<String>)
        ensures
            res is Ok,
            res->Ok_0@ == assembled(
                encode_utf8(payload@.json()),
                ed25519_signature(self.secret(), encode_utf8(payload@.json())),
            ),
            key_contents(res->Ok_0@, ed25519_public(self.secret())) == Ok::<Seq<u8>, Fault>(
                encode_utf8(payload@.json()),
            ),
            forall|key: Seq<u8>| #[trigger]
                key_contents(res->Ok_0@, key) == opened(
                    encode_utf8(payload@.json()),
                    ed25519_signature(self.secret(), encode_utf8(payload@.json())),
                    key,
                ),
    {
        match payload.signing_bytes() {
            Ok(bytes) => {
                let sig = sign_with(&self.seed, bytes.as_slice());
                Ok(encode_key(bytes.as_slice(), &sig))
            },
            Err(e) => Err(e),
        }
    }
}

proof fn lemma_packed_is_trim(s: Seq<char>)
    requires
        forall|i: int| 0 <= i < s.len() ==> is_url_char(#[trigger] s[i]),
    ensures
        trim(s) == s,
{
    if s.len() > 0 {
        assert(!is_white(s[0]));
        assert(!is_white(s[s.len() - 1]));
        assert(s.last() == s[s.len() - 1]);
    }
}

} // verus!
