//! A stable, opaque per-install identifier.
//!
//! Used for seat counting and support diagnostics. Intentionally random rather
//! than derived from hardware: it identifies an install, not a person or a
//! machine.

use vstd::prelude::*;
use crate::text::{
    all_hex, append_chars, chars_of, hex, hex_chars, hex_digit, is_hex, lemma_hex_len, string_of, trim,
    trim_chars,
};

verus! {

/// Whether a stored identifier is intact: 32 hexadecimal digits.
pub open spec fn is_fingerprint(s: Seq<char>) -> bool {
    s.len() == 32 && forall|i: int| 0 <= i < s.len() ==> is_hex(#[trigger] s[i])
}

/// The identifier in a stored record, blanks around it aside, if it is intact.
pub fn kept_fingerprint(existing: &str) -> (res: Option<String>)
    ensures
        match res {
            Some(id) => id@ == trim(existing@) && is_fingerprint(id@),
            None => !is_fingerprint(trim(existing@)),
        },
{
    let trimmed = trim_chars(&chars_of(existing));
    if trimmed.len() == 32 && all_hex(&trimmed, 0) {
        assert(trimmed@.skip(0) == trimmed@);
        Some(string_of(&trimmed))
    } else {
        assert(trimmed@.skip(0) == trimmed@);
        None
    }
}

/// An identifier made of random bytes, in lowercase hexadecimal.
pub fn new_fingerprint(random: &Vec<u8>) -> (res: String)
    requires
        random@.len() == 16,
    ensures
        res@ == hex(random@),
        is_fingerprint(res@),
{
    let v = hex_chars(random, 16);
    proof {
        assert(random@.take(16) == random@);
        lemma_hex_len(random@);
    }
    string_of(&v)
}

/// Different random bytes make different identifiers.
pub proof fn law_fingerprints_differ(a: Seq<u8>, b: Seq<u8>)
    requires
        a.len() == b.len(),
        a != b,
    ensures
        hex(a) != hex(b),
    decreases a.len(),
{
    if a.len() == 0 {
        assert(a =~= b);
    } else if hex(a) == hex(b) {
        let x = a.last();
        let y = b.last();
        let n = hex(a).len();
        assert(hex(a)[n - 1] == hex_digit((x % 16) as nat));
        assert(hex(b)[n - 1] == hex_digit((y % 16) as nat));
        assert(hex(a)[n - 2] == hex_digit((x / 16) as nat));
        assert(hex(b)[n - 2] == hex_digit((y / 16) as nat));
        assert(x == y);
        assert(hex(a.drop_last()) == hex(a).drop_last().drop_last());
        assert(hex(b.drop_last()) == hex(b).drop_last().drop_last());
        if a.drop_last() != b.drop_last() {
            law_fingerprints_differ(a.drop_last(), b.drop_last());
        }
        assert(a == a.drop_last().push(x));
        assert(b == b.drop_last().push(y));
    }
}

/// A license id made of random bytes: the first six, after a prefix.
pub fn license_id(random: &Vec<u8>) -> (res: String)
    requires
        random@.len() >= 6,
    ensures
        res@ == "lic_"@ + hex(random@.take(6)),
{
    let mut v = chars_of("lic_");
    append_chars(&mut v, &hex_chars(random, 6));
    string_of(&v)
}

/// A stored identifier is intact exactly where it is 32 hexadecimal digits, of
/// either case.
pub proof fn law_fingerprints_have_a_form(s: Seq<char>)
    ensures
        is_fingerprint(s) <==> s.len() == 32 && forall|i: int|
            0 <= i < s.len() ==> '0' <= #[trigger] s[i] <= '9' || 'a' <= s[i] <= 'f' || 'A' <= s[i]
                <= 'F',
{
    if is_fingerprint(s) {
        assert forall|i: int| 0 <= i < s.len() implies '0' <= #[trigger] s[i] <= '9' || 'a' <= s[i]
            <= 'f' || 'A' <= s[i] <= 'F' by {
            assert(is_hex(s[i]));
        }
    }
}

/// Each byte has two digits, the higher first, in lower case.
pub proof fn law_bytes_have_two_digits(bytes: Seq<u8>, high: u8, low: u8)
    requires
        high < 16,
        low < 16,
    ensures
        hex(bytes.push((16 * high + low) as u8)).len() == hex(bytes).len() + 2,
        ({
            let s = hex(bytes.push((16 * high + low) as u8));
            let h = s[s.len() - 2];
            let l = s[s.len() - 1];
            &&& s.take(s.len() - 2) == hex(bytes)
            &&& if high < 10 {
                h as u32 == high + 48
            } else {
                h as u32 == high + 87
            }
            &&& if low < 10 {
                l as u32 == low + 48
            } else {
                l as u32 == low + 87
            }
        }),
{
    let b = (16 * high + low) as u8;
    assert(bytes.push(b).drop_last() =~= bytes);
    assert(b / 16 == high && b % 16 == low);
    let s = hex(bytes.push(b));
    assert(s.take(s.len() - 2) =~= hex(bytes));
}

} // verus!
