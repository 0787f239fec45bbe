//! What the signed text of a license tells apart, and which keys open.

use vstd::prelude::*;
use vstd::utf8::{encode_utf8, encode_utf8_decode_utf8};
use crate::license::{key_contents, normalized, Fault, PayloadView, Plan};
use crate::text::{decimal, digit, digits, hex, hex_digit, is_white, segments};
use crate::trusted::{base64_url_decoded, ed25519_verifies, json_char, json_string};

verus! {

/// Two payloads with the same signed bytes are the same payload: what a signature
/// covers leaves no field open, whatever characters the texts hold.
pub proof fn law_signed_bytes_tell_payloads_apart(a: PayloadView, b: PayloadView)
    requires
        encode_utf8(a.json()) == encode_utf8(b.json()),
    ensures
        a == b,
{
    encode_utf8_decode_utf8(a.json());
    encode_utf8_decode_utf8(b.json());
    lemma_json_nests(a);
    lemma_json_nests(b);
    lemma_cancel("{\"v\":"@, from_version(a), from_version(b));
    reveal_strlit(",\"id\":");
    lemma_digits_end(a.v as nat, after_version(a), b.v as nat, after_version(b));
    lemma_cancel(",\"id\":"@, from_id(a), from_id(b));
    lemma_string_ends(a.id, after_id(a), b.id, after_id(b));
    lemma_cancel(",\"email\":"@, from_email(a), from_email(b));
    lemma_string_ends(a.email, after_email(a), b.email, after_email(b));
    lemma_cancel(",\"plan\":\""@, from_plan(a), from_plan(b));
    lemma_plan_ends(a.plan, after_plan(a), b.plan, after_plan(b));
    lemma_cancel("\",\"seats\":"@, from_seats(a), from_seats(b));
    reveal_strlit(",\"issued_at\":");
    lemma_digits_end(a.seats as nat, after_seats(a), b.seats as nat, after_seats(b));
    lemma_cancel(",\"issued_at\":"@, from_issued(a), from_issued(b));
    reveal_strlit(",\"expires_at\":");
    lemma_decimal_ends(a.issued_at as int, after_issued(a), b.issued_at as int, after_issued(b));
    lemma_cancel(",\"expires_at\":"@, from_expiry(a), from_expiry(b));
    lemma_expiry(a.expires_at, b.expires_at);
}

// ---- the text, from the end on -----------------------------------------

spec fn expiry(at: Option<i64>) -> Seq<char> {
    match at {
        Some(end) => decimal(end as int),
        None => "null"@,
    }
}

spec fn from_expiry(p: PayloadView) -> Seq<char> {
    expiry(p.expires_at) + "}"@
}

spec fn after_issued(p: PayloadView) -> Seq<char> {
    ",\"expires_at\":"@ + from_expiry(p)
}

spec fn from_issued(p: PayloadView) -> Seq<char> {
    decimal(p.issued_at as int) + after_issued(p)
}

spec fn after_seats(p: PayloadView) -> Seq<char> {
    ",\"issued_at\":"@ + from_issued(p)
}

spec fn from_seats(p: PayloadView) -> Seq<char> {
    digits(p.seats as nat) + after_seats(p)
}

spec fn after_plan(p: PayloadView) -> Seq<char> {
    "\",\"seats\":"@ + from_seats(p)
}

spec fn from_plan(p: PayloadView) -> Seq<char> {
    p.plan.text() + after_plan(p)
}

spec fn after_email(p: PayloadView) -> Seq<char> {
    ",\"plan\":\""@ + from_plan(p)
}

spec fn from_email(p: PayloadView) -> Seq<char> {
    json_string(p.email) + after_email(p)
}

spec fn after_id(p: PayloadView) -> Seq<char> {
    ",\"email\":"@ + from_email(p)
}

spec fn from_id(p: PayloadView) -> Seq<char> {
    json_string(p.id) + after_id(p)
}

spec fn after_version(p: PayloadView) -> Seq<char> {
    ",\"id\":"@ + from_id(p)
}

spec fn from_version(p: PayloadView) -> Seq<char> {
    digits(p.v as nat) + after_version(p)
}

proof fn lemma_assoc(a: Seq<char>, b: Seq<char>, c: Seq<char>)
    ensures
        a + b + c == a + (b + c),
{
    assert(a + b + c =~= a + (b + c));
}

proof fn lemma_json_nests(p: PayloadView)
    ensures
        p.json() == "{\"v\":"@ + from_version(p),
{
    let s0 = "{\"v\":"@;
    let s1 = s0 + digits(p.v as nat);
    let s2 = s1 + ",\"id\":"@;
    let s3 = s2 + json_string(p.id);
    let s4 = s3 + ",\"email\":"@;
    let s5 = s4 + json_string(p.email);
    let s6 = s5 + ",\"plan\":\""@;
    let s7 = s6 + p.plan.text();
    let s8 = s7 + "\",\"seats\":"@;
    let s9 = s8 + digits(p.seats as nat);
    let s10 = s9 + ",\"issued_at\":"@;
    let s11 = s10 + decimal(p.issued_at as int);
    let s12 = s11 + ",\"expires_at\":"@;
    assert(p.json() == s12 + expiry(p.expires_at) + "}"@);
    lemma_assoc(s12, expiry(p.expires_at), "}"@);
    lemma_assoc(s11, ",\"expires_at\":"@, from_expiry(p));
    lemma_assoc(s10, decimal(p.issued_at as int), after_issued(p));
    lemma_assoc(s9, ",\"issued_at\":"@, from_issued(p));
    lemma_assoc(s8, digits(p.seats as nat), after_seats(p));
    lemma_assoc(s7, "\",\"seats\":"@, from_seats(p));
    lemma_assoc(s6, p.plan.text(), after_plan(p));
    lemma_assoc(s5, ",\"plan\":\""@, from_plan(p));
    lemma_assoc(s4, json_string(p.email), after_email(p));
    lemma_assoc(s3, ",\"email\":"@, from_email(p));
    lemma_assoc(s2, json_string(p.id), after_id(p));
    lemma_assoc(s1, ",\"id\":"@, from_id(p));
    lemma_assoc(s0, digits(p.v as nat), after_version(p));
}

// ---- where a field ends ------------------------------------------------

proof fn lemma_cancel(head: Seq<char>, s: Seq<char>, t: Seq<char>)
    requires
        head + s == head + t,
    ensures
        s == t,
{
    assert((head + s).skip(head.len() as int) == s);
    assert((head + t).skip(head.len() as int) == t);
}

/// Two texts of some characters, each followed by another character, end alike.
proof fn lemma_split(
    inside: spec_fn(char) -> bool,
    a: Seq<char>,
    s: Seq<char>,
    b: Seq<char>,
    t: Seq<char>,
)
    requires
        a + s == b + t,
        forall|i: int| 0 <= i < a.len() ==> inside(#[trigger] a[i]),
        forall|i: int| 0 <= i < b.len() ==> inside(#[trigger] b[i]),
        s.len() > 0 && !inside(s[0]),
        t.len() > 0 && !inside(t[0]),
    ensures
        a == b,
        s == t,
{
    let w = a + s;
    assert(w[a.len() as int] == s[0]);
    assert((b + t)[b.len() as int] == t[0]);
    if a.len() < b.len() {
        assert((b + t)[a.len() as int] == b[a.len() as int]);
    }
    if b.len() < a.len() {
        assert(w[b.len() as int] == a[b.len() as int]);
    }
    assert(w.take(a.len() as int) == a);
    assert((b + t).take(b.len() as int) == b);
    lemma_cancel(a, s, t);
}

spec fn in_number(c: char) -> bool {
    c == '-' || '0' <= c <= '9'
}

proof fn lemma_digits_shape(n: nat)
    ensures
        digits(n).len() > 0,
        forall|i: int| 0 <= i < digits(n).len() ==> '0' <= #[trigger] digits(n)[i] <= '9',
    decreases n,
{
    if n >= 10 {
        lemma_digits_shape(n / 10);
    }
}

proof fn lemma_digits_differ(m: nat, n: nat)
    requires
        digits(m) == digits(n),
    ensures
        m == n,
    decreases m,
{
    lemma_last_digit(m);
    lemma_last_digit(n);
    if m >= 10 {
        lemma_digits_differ(m / 10, n / 10);
    }
}

proof fn lemma_last_digit(n: nat)
    ensures
        digits(n).last() as u32 == n % 10 + 48,
        n < 10 ==> digits(n).len() == 1,
        n >= 10 ==> digits(n).len() > 1 && digits(n).drop_last() == digits(n / 10),
{
    assert(digit(n % 10) as u32 == n % 10 + 48);
    if n >= 10 {
        lemma_digits_shape(n / 10);
        assert(digits(n) == digits(n / 10).push(digit(n % 10)));
        assert(digits(n).drop_last() == digits(n / 10));
    } else {
        assert(digits(n) == seq![digit(n)]);
    }
}

proof fn lemma_digits_end(m: nat, s: Seq<char>, n: nat, t: Seq<char>)
    requires
        digits(m) + s == digits(n) + t,
        s.len() > 0 && s[0] == ',',
        t.len() > 0 && t[0] == ',',
    ensures
        m == n,
        s == t,
{
    lemma_digits_shape(m);
    lemma_digits_shape(n);
    lemma_split(|c: char| in_number(c), digits(m), s, digits(n), t);
    lemma_digits_differ(m, n);
}

proof fn lemma_decimal_shape(n: int)
    ensures
        decimal(n).len() > 0,
        forall|i: int| 0 <= i < decimal(n).len() ==> in_number(#[trigger] decimal(n)[i]),
        (decimal(n)[0] == '-') == (n < 0),
{
    if n < 0 {
        lemma_digits_shape((-n) as nat);
    } else {
        lemma_digits_shape(n as nat);
        assert('0' <= digits(n as nat)[0]);
    }
}

proof fn lemma_decimals_differ(m: int, n: int)
    requires
        decimal(m) == decimal(n),
    ensures
        m == n,
{
    lemma_decimal_shape(m);
    lemma_decimal_shape(n);
    if m < 0 {
        lemma_cancel(seq!['-'], digits((-m) as nat), digits((-n) as nat));
        lemma_digits_differ((-m) as nat, (-n) as nat);
    } else {
        lemma_digits_differ(m as nat, n as nat);
    }
}

proof fn lemma_decimal_ends(m: int, s: Seq<char>, n: int, t: Seq<char>)
    requires
        decimal(m) + s == decimal(n) + t,
        s.len() > 0 && !in_number(s[0]),
        t.len() > 0 && !in_number(t[0]),
    ensures
        m == n,
        s == t,
{
    lemma_decimal_shape(m);
    lemma_decimal_shape(n);
    lemma_split(|c: char| in_number(c), decimal(m), s, decimal(n), t);
    lemma_decimals_differ(m, n);
}

proof fn lemma_expiry(a: Option<i64>, b: Option<i64>)
    requires
        expiry(a) + "}"@ == expiry(b) + "}"@,
    ensures
        a == b,
{
    reveal_strlit("}");
    reveal_strlit("null");
    if let Some(x) = a {
        lemma_decimal_shape(x as int);
        assert((expiry(a) + "}"@)[0] == decimal(x as int)[0]);
    } else {
        assert((expiry(a) + "}"@)[0] == 'n');
    }
    if let Some(y) = b {
        lemma_decimal_shape(y as int);
        assert((expiry(b) + "}"@)[0] == decimal(y as int)[0]);
    } else {
        assert((expiry(b) + "}"@)[0] == 'n');
    }
    if a is Some && b is Some {
        lemma_decimal_ends(a->0 as int, "}"@, b->0 as int, "}"@);
    }
}

proof fn lemma_plan_ends(p: Plan, s: Seq<char>, q: Plan, t: Seq<char>)
    requires
        p.text() + s == q.text() + t,
    ensures
        p == q,
        s == t,
{
    reveal_strlit("personal");
    reveal_strlit("team");
    reveal_strlit("lifetime");
    assert((p.text() + s)[0] == p.text()[0]);
    assert((q.text() + t)[0] == q.text()[0]);
    lemma_cancel(p.text(), s, t);
}

// ---- string literals ---------------------------------------------------

/// The inside of a string literal.
spec fn inside(s: Seq<char>) -> Seq<char> {
    s.map_values(|c: char| json_char(c)).flatten()
}

proof fn lemma_inside_step(s: Seq<char>)
    requires
        s.len() > 0,
    ensures
        inside(s) == json_char(s[0]) + inside(s.drop_first()),
{
    let all = s.map_values(|c: char| json_char(c));
    assert(all.drop_first() == s.drop_first().map_values(|c: char| json_char(c)));
}

proof fn lemma_string_ends(x: Seq<char>, s: Seq<char>, y: Seq<char>, t: Seq<char>)
    requires
        json_string(x) + s == json_string(y) + t,
    ensures
        x == y,
        s == t,
{
    let quote = seq!['"'];
    lemma_assoc(quote + inside(x), quote, s);
    lemma_assoc(quote, inside(x), quote + s);
    lemma_assoc(quote + inside(y), quote, t);
    lemma_assoc(quote, inside(y), quote + t);
    lemma_cancel(quote, inside(x) + (quote + s), inside(y) + (quote + t));
    lemma_inside_ends(x, s, y, t);
}

proof fn lemma_inside_ends(x: Seq<char>, s: Seq<char>, y: Seq<char>, t: Seq<char>)
    requires
        inside(x) + (seq!['"'] + s) == inside(y) + (seq!['"'] + t),
    ensures
        x == y,
        s == t,
    decreases x.len(),
{
    let quote = seq!['"'];
    let left = inside(x) + (quote + s);
    let right = inside(y) + (quote + t);
    if x.len() > 0 {
        lemma_inside_step(x);
        lemma_assoc(json_char(x[0]), inside(x.drop_first()), quote + s);
        lemma_char_shape(x[0]);
        assert(left[0] == json_char(x[0])[0]);
    } else {
        assert(inside(x) == Seq::<char>::empty());
        assert(left == quote + s);
    }
    if y.len() > 0 {
        lemma_inside_step(y);
        lemma_assoc(json_char(y[0]), inside(y.drop_first()), quote + t);
        lemma_char_shape(y[0]);
        assert(right[0] == json_char(y[0])[0]);
    } else {
        assert(inside(y) == Seq::<char>::empty());
        assert(right == quote + t);
    }
    if x.len() > 0 && y.len() > 0 {
        let u = inside(x.drop_first()) + (quote + s);
        let v = inside(y.drop_first()) + (quote + t);
        lemma_chars_end(x[0], u, y[0], v);
        lemma_inside_ends(x.drop_first(), s, y.drop_first(), t);
        assert(x == seq![x[0]] + x.drop_first());
        assert(y == seq![y[0]] + y.drop_first());
    } else {
        assert(x.len() == 0 && y.len() == 0);
        assert(x == y);
        lemma_cancel(quote, s, t);
    }
}

proof fn lemma_char_shape(c: char)
    ensures
        json_char(c).len() > 0,
        json_char(c)[0] != '"',
{
}

/// No character's notation begins another's.
proof fn lemma_chars_end(c: char, s: Seq<char>, d: char, t: Seq<char>)
    requires
        json_char(c) + s == json_char(d) + t,
    ensures
        c == d,
        s == t,
{
    let left = json_char(c) + s;
    let right = json_char(d) + t;
    assert(left[0] == json_char(c)[0]);
    assert(right[0] == json_char(d)[0]);
    if json_char(c)[0] == '\\' {
        assert(left[1] == json_char(c)[1]);
        assert(right[1] == json_char(d)[1]);
        if json_char(c)[1] == 'u' {
            lemma_control_shape(c);
            lemma_control_shape(d);
            assert(left[4] == json_char(c)[4] && left[5] == json_char(c)[5]);
            assert(right[4] == json_char(d)[4] && right[5] == json_char(d)[5]);
        }
    }
    lemma_cancel(json_char(c), s, t);
}

proof fn lemma_control_shape(c: char)
    requires
        json_char(c).len() > 1,
        json_char(c)[1] == 'u',
    ensures
        (c as u32) < 32,
        json_char(c).len() == 6,
        json_char(c)[4] == hex_digit((c as u8 / 16) as nat),
        json_char(c)[5] == hex_digit((c as u8 % 16) as nat),
{
    let b = c as u8;
    assert(hex(seq![b].drop_last()) == Seq::<char>::empty());
    assert(hex(seq![b]) == Seq::<char>::empty().push(hex_digit((b / 16) as nat)).push(
        hex_digit((b % 16) as nat),
    ));
}

// ---- keys and terms ----------------------------------------------------

/// A license has run out exactly from the second its term names on; one without a
/// term never does.
pub proof fn law_terms_end_to_the_second(p: PayloadView, now: i64)
    ensures
        p.expires_at is None ==> !p.expired_at(now),
        p.expires_at matches Some(end) ==> (p.expired_at(now) <==> now >= end),
{
}

/// Cleaning a key up takes its whitespace and nothing else.
pub proof fn law_only_whitespace_is_dropped(raw: Seq<char>, c: char)
    ensures
        normalized(raw.push(c)) == (if is_white(c) {
            normalized(raw)
        } else {
            normalized(raw).push(c)
        }),
        normalized(Seq::<char>::empty()) == Seq::<char>::empty(),
{
    reveal(Seq::filter);
    assert(raw.push(c).drop_last() =~= raw);
}

/// A key opens exactly where it is the prefix, a payload and a signature of 64
/// bytes, parted by dots, and the signature verifies for the payload; what it gives
/// is that payload.
pub proof fn law_keys_open_exactly_where_signed(raw: Seq<char>, key: Seq<u8>, payload: Seq<u8>)
    ensures
        key_contents(raw, key) == Ok::<Seq<u8>, Fault>(payload) <==> ({
            let parts = segments(normalized(raw), '.');
            &&& parts.len() == 3
            &&& parts[0] == "PP1"@
            &&& base64_url_decoded(parts[1]) == Some(payload)
            &&& base64_url_decoded(parts[2]) matches Some(signature) && signature.len() == 64
                && ed25519_verifies(key, payload, signature)
        }),
{
}

/// A key is refused for what is wrong with it: one of another format for its
/// prefix, one whose signature does not verify for its signature, and everything
/// else as malformed.
pub proof fn law_refusals_name_the_fault(raw: Seq<char>, key: Seq<u8>)
    requires
        key_contents(raw, key) is Err,
    ensures
        ({
            let parts = segments(normalized(raw), '.');
            let fault = key_contents(raw, key)->Err_0;
            &&& parts.len() != 3 ==> fault is Malformed
            &&& parts.len() == 3 && parts[0] != "PP1"@ ==> fault == Fault::UnknownFormat(parts[0])
            &&& fault is BadSignature ==> parts.len() == 3 && parts[0] == "PP1"@
                && base64_url_decoded(parts[1]) is Some && base64_url_decoded(parts[2]) is Some
        }),
{
}

} // verus!
