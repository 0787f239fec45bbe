//! Character-level text operations and the specifications they meet.
//!
//! Strings are modelled by their view, a sequence of characters. The
//! operations here work on character vectors; [`chars_of`] and [`string_of`]
//! move between the two.

use vstd::prelude::*;

verus! {

/// `char::is_whitespace` of the standard library: membership in the Unicode
/// `White_Space` property, spelled out as its code points.
pub assume_specification[ char::is_whitespace ](c: char) -> (res: bool)
    ensures
        res == is_white(c),
;

/// What `char::is_alphanumeric` of the standard library answers beyond ASCII:
/// whether the character has the Unicode `Alphabetic` property or is in one of the
/// numeric general categories.
pub uninterp spec fn is_alnum_beyond_ascii(c: char) -> bool;

/// `char::is_alphanumeric` of the standard library, a fixed property of the
/// character: within ASCII, that of the letters and the digits.
pub assume_specification[ char::is_alphanumeric ](c: char) -> (res: bool)
    ensures
        (c as u32) <= 127 ==> res == is_ascii_alnum(c),
        (c as u32) > 127 ==> res == is_alnum_beyond_ascii(c),
;

/// An ASCII letter or digit.
pub open spec fn is_ascii_alnum(c: char) -> bool {
    ||| '0' <= c <= '9'
    ||| 'A' <= c <= 'Z'
    ||| 'a' <= c <= 'z'
}

/// A letter or digit of any script.
pub open spec fn is_alnum(c: char) -> bool {
    if (c as u32) <= 127 {
        is_ascii_alnum(c)
    } else {
        is_alnum_beyond_ascii(c)
    }
}

/// `String::push` of the standard library: appends one character.
pub assume_specification[ String::push ](s: &mut String, c: char)
    ensures
        final(s)@ == old(s)@.push(c),
;

/// The characters with the Unicode `White_Space` property.
pub open spec fn is_white(c: char) -> bool {
    let n = c as u32;
    ||| 0x9 <= n <= 0xd
    ||| n == 0x20
    ||| n == 0x85
    ||| n == 0xa0
    ||| n == 0x1680
    ||| 0x2000 <= n <= 0x200a
    ||| n == 0x2028
    ||| n == 0x2029
    ||| n == 0x202f
    ||| n == 0x205f
    ||| n == 0x3000
}

/// A string's characters, as a vector.
pub fn chars_of(s: &str) -> (res: Vec<char>)
    ensures
        res@ == s@,
{
    let mut out: Vec<char> = Vec::new();
    for c in it: s.chars()
        invariant
            it.seq() == s@,
            out@ == it.seq().take(it.index() as int),
    {
        out.push(c);
        assert(it.seq().take(it.index() + 1) == it.seq().take(it.index() as int).push(c));
    }
    assert(s@.take(s@.len() as int) == s@);
    out
}

/// The string with the given characters.
pub fn string_of(v: &Vec<char>) -> (res: String)
    ensures
        res@ == v@,
{
    let mut out = String::new();
    for i in 0..v.len()
        invariant
            out@ == v@.take(i as int),
    {
        out.push(v[i]);
        assert(v@.take(i + 1) == v@.take(i as int).push(v@[i as int]));
    }
    assert(v@.take(v@.len() as int) == v@);
    out
}

/// An owned copy of a string slice.
pub fn owned(s: &str) -> (res: String)
    ensures
        res@ == s@,
{
    s.to_owned()
}

/// Whether two character vectors hold the same characters.
pub fn same_chars(a: &Vec<char>, b: &Vec<char>) -> (res: bool)
    ensures
        res == (a@ == b@),
{
    if a.len() != b.len() {
        return false;
    }
    for i in 0..a.len()
        invariant
            a.len() == b.len(),
            forall|j: int| 0 <= j < i ==> a@[j] == b@[j],
    {
        if a[i] != b[i] {
            return false;
        }
    }
    assert(a@ == b@);
    true
}

/// Whether two strings are equal.
pub fn same(a: &str, b: &str) -> (res: bool)
    ensures
        res == (a@ == b@),
{
    let x = chars_of(a);
    let y = chars_of(b);
    same_chars(&x, &y)
}

/// A copy of the characters from `from` up to `to`.
pub fn slice_chars(v: &Vec<char>, from: usize, to: usize) -> (res: Vec<char>)
    requires
        from <= to <= v.len(),
    ensures
        res@ == v@.subrange(from as int, to as int),
{
    let mut out: Vec<char> = Vec::new();
    for i in from..to
        invariant
            from <= to <= v.len(),
            out@ == v@.subrange(from as int, i as int),
    {
        out.push(v[i]);
        assert(v@.subrange(from as int, i + 1) == v@.subrange(from as int, i as int).push(
            v@[i as int],
        ));
    }
    out
}

/// Appends a copy of `more`.
pub fn append_chars(v: &mut Vec<char>, more: &Vec<char>)
    ensures
        final(v)@ == old(v)@ + more@,
{
    let ghost before = v@;
    for i in 0..more.len()
        invariant
            v@ == before + more@.take(i as int),
    {
        v.push(more[i]);
        assert(more@.take(i + 1) == more@.take(i as int).push(more@[i as int]));
        assert(v@ == before + more@.take(i + 1));
    }
    assert(more@.take(more@.len() as int) == more@);
}

// ---- trimming ----------------------------------------------------------

/// The text from its first character that is not whitespace.
pub open spec fn trim_start(s: Seq<char>) -> Seq<char>
    decreases s.len(),
{
    if s.len() > 0 && is_white(s[0]) {
        trim_start(s.drop_first())
    } else {
        s
    }
}

/// The text up to its last character that is not whitespace.
pub open spec fn trim_end(s: Seq<char>) -> Seq<char>
    decreases s.len(),
{
    if s.len() > 0 && is_white(s.last()) {
        trim_end(s.drop_last())
    } else {
        s
    }
}

/// The text without whitespace at either end.
pub open spec fn trim(s: Seq<char>) -> Seq<char> {
    trim_end(trim_start(s))
}

/// The characters without whitespace at either end.
pub fn trim_chars(v: &Vec<char>) -> (res: Vec<char>)
    ensures
        res@ == trim(v@),
{
    let mut from: usize = 0;
    assert(v@.skip(0) == v@);
    while from < v.len() && v[from].is_whitespace()
        invariant
            from <= v.len(),
            trim_start(v@) == trim_start(v@.skip(from as int)),
        decreases v.len() - from,
    {
        assert(v@.skip(from as int).drop_first() == v@.skip(from + 1));
        from += 1;
    }
    assert(trim_start(v@) == v@.skip(from as int));
    let mut to: usize = v.len();
    assert(v@.skip(from as int) == v@.subrange(from as int, to as int));
    while to > from && v[to - 1].is_whitespace()
        invariant
            from <= to <= v.len(),
            trim_end(trim_start(v@)) == trim_end(v@.subrange(from as int, to as int)),
        decreases to,
    {
        assert(v@.subrange(from as int, to as int).drop_last() == v@.subrange(
            from as int,
            to - 1,
        ));
        assert(v@.subrange(from as int, to as int).last() == v@[to - 1]);
        to -= 1;
    }
    slice_chars(v, from, to)
}

/// Whether the text is whitespace throughout.
pub open spec fn is_blank(s: Seq<char>) -> bool {
    forall|i: int| 0 <= i < s.len() ==> is_white(#[trigger] s[i])
}

/// Trimming leaves nothing exactly of blank text.
pub proof fn lemma_trim_blank(s: Seq<char>)
    ensures
        trim(s).len() == 0 <==> is_blank(s),
    decreases s.len(),
{
    if s.len() > 0 {
        if is_white(s[0]) {
            lemma_trim_blank(s.drop_first());
            if is_blank(s.drop_first()) {
                assert forall|i: int| 0 <= i < s.len() implies is_white(#[trigger] s[i]) by {
                    if i > 0 {
                        assert(s.drop_first()[i - 1] == s[i]);
                    }
                }
            }
            if is_blank(s) {
                assert forall|i: int| 0 <= i < s.drop_first().len() implies is_white(
                    #[trigger] s.drop_first()[i],
                ) by {
                    assert(s.drop_first()[i] == s[i + 1]);
                }
            }
        } else {
            assert(trim_start(s) == s);
            lemma_trim_end_keeps_head(s);
        }
    }
}

proof fn lemma_trim_end_keeps_head(s: Seq<char>)
    requires
        s.len() > 0,
        !is_white(s[0]),
    ensures
        trim_end(s).len() > 0,
    decreases s.len(),
{
    if is_white(s.last()) {
        lemma_trim_end_keeps_head(s.drop_last());
    }
}

// ---- runs and segments -------------------------------------------------

/// The maximal non-empty runs of characters that are not separators, in order.
pub open spec fn runs(s: Seq<char>, sep: spec_fn(char) -> bool) -> Seq<Seq<char>>
    decreases s.len(),
{
    if s.len() == 0 {
        Seq::empty()
    } else {
        let before = runs(s.drop_last(), sep);
        let c = s.last();
        if sep(c) {
            before
        } else if s.len() >= 2 && !sep(s[s.len() - 2]) {
            before.drop_last().push(before.last().push(c))
        } else {
            before.push(seq![c])
        }
    }
}

/// A text that ends outside a separator has a last run.
pub proof fn lemma_runs_nonempty(s: Seq<char>, sep: spec_fn(char) -> bool)
    requires
        s.len() > 0,
        !sep(s.last()),
    ensures
        runs(s, sep).len() > 0,
    decreases s.len(),
{
    if s.len() >= 2 && !sep(s[s.len() - 2]) {
        lemma_runs_nonempty(s.drop_last(), sep);
    }
}

/// Every run is non-empty and holds no separator.
pub proof fn lemma_runs_clean(s: Seq<char>, sep: spec_fn(char) -> bool)
    ensures
        forall|i: int|
            0 <= i < runs(s, sep).len() ==> {
                &&& (#[trigger] runs(s, sep)[i]).len() > 0
                &&& forall|j: int|
                    0 <= j < runs(s, sep)[i].len() ==> !sep(#[trigger] runs(s, sep)[i][j])
            },
    decreases s.len(),
{
    if s.len() > 0 {
        lemma_runs_clean(s.drop_last(), sep);
        if !sep(s.last()) && s.len() >= 2 && !sep(s[s.len() - 2]) {
            lemma_runs_nonempty(s.drop_last(), sep);
        }
    }
}

/// The character vectors' contents.
pub open spec fn chars_view(v: Seq<Vec<char>>) -> Seq<Seq<char>> {
    v.map_values(|w: Vec<char>| w@)
}

/// The strings' contents.
pub open spec fn strs_view(v: Seq<String>) -> Seq<Seq<char>> {
    v.map_values(|w: String| w@)
}

/// The words separated by whitespace.
pub open spec fn words(s: Seq<char>) -> Seq<Seq<char>> {
    runs(s, |c: char| is_white(c))
}

/// The words separated by whitespace.
pub fn split_words(v: &Vec<char>) -> (res: Vec<Vec<char>>)
    ensures
        chars_view(res@) == words(v@),
{
    let ghost sep = |c: char| is_white(c);
    let mut out: Vec<Vec<char>> = Vec::new();
    let mut cur: Vec<char> = Vec::new();
    let mut i: usize = 0;
    assert(chars_view(out@) == runs(v@.take(0), sep));
    while i < v.len()
        invariant
            i <= v.len(),
            sep == (|c: char| is_white(c)),
            cur@.len() > 0 <==> (i > 0 && !sep(v@[i - 1])),
            runs(v@.take(i as int), sep) == (if cur@.len() > 0 {
                chars_view(out@).push(cur@)
            } else {
                chars_view(out@)
            }),
        decreases v.len() - i,
    {
        let c = v[i];
        let ghost t = v@.take(i + 1);
        assert(t.drop_last() == v@.take(i as int));
        assert(t.last() == c);
        if i > 0 {
            assert(t[t.len() - 2] == v@[i - 1]);
        }
        if c.is_whitespace() {
            if cur.len() > 0 {
                let ghost before = out@;
                out.push(cur);
                assert(chars_view(out@) == chars_view(before).push(cur@));
                cur = Vec::new();
            }
        } else {
            let ghost before = cur@;
            cur.push(c);
            proof {
                if before.len() > 0 {
                    assert(chars_view(out@).push(before).drop_last() == chars_view(out@));
                    assert(runs(t, sep) == chars_view(out@).push(cur@));
                } else {
                    assert(cur@ == seq![c]);
                }
            }
        }
        i += 1;
    }
    assert(v@.take(v@.len() as int) == v@);
    if cur.len() > 0 {
        let ghost before = out@;
        out.push(cur);
        assert(chars_view(out@) == chars_view(before).push(cur@));
    }
    out
}

/// The pieces joined with a separator between neighbours.
pub open spec fn joined(parts: Seq<Seq<char>>, sep: Seq<char>) -> Seq<char>
    decreases parts.len(),
{
    if parts.len() == 0 {
        Seq::empty()
    } else if parts.len() == 1 {
        parts[0]
    } else {
        joined(parts.drop_last(), sep) + sep + parts.last()
    }
}

/// The pieces joined with a separator between neighbours.
pub fn join_chars(parts: &Vec<Vec<char>>, sep: &Vec<char>) -> (res: Vec<char>)
    ensures
        res@ == joined(chars_view(parts@), sep@),
{
    let mut out: Vec<char> = Vec::new();
    for i in 0..parts.len()
        invariant
            out@ == joined(chars_view(parts@).take(i as int), sep@),
    {
        let ghost t = chars_view(parts@).take(i + 1);
        assert(t.drop_last() == chars_view(parts@).take(i as int));
        assert(t.last() == parts@[i as int]@);
        if i > 0 {
            append_chars(&mut out, sep);
        }
        append_chars(&mut out, &parts[i]);
        assert(out@ == joined(t, sep@));
    }
    assert(chars_view(parts@).take(parts@.len() as int) == chars_view(parts@));
    out
}

/// The segments between occurrences of a separator, empty ones included.
pub open spec fn segments(s: Seq<char>, sep: char) -> Seq<Seq<char>>
    decreases s.len(),
{
    if s.len() == 0 {
        seq![Seq::empty()]
    } else {
        let before = segments(s.drop_last(), sep);
        if s.last() == sep {
            before.push(Seq::empty())
        } else {
            before.drop_last().push(before.last().push(s.last()))
        }
    }
}

/// There is always at least one segment.
pub proof fn lemma_segments_nonempty(s: Seq<char>, sep: char)
    ensures
        segments(s, sep).len() > 0,
    decreases s.len(),
{
    if s.len() > 0 {
        lemma_segments_nonempty(s.drop_last(), sep);
    }
}

/// A text without the separator is a single segment.
pub proof fn lemma_segments_single(s: Seq<char>, sep: char)
    requires
        !s.contains(sep),
    ensures
        segments(s, sep) == seq![s],
    decreases s.len(),
{
    if s.len() > 0 {
        assert(s.last() == s[s.len() - 1]);
        assert forall|c: char| s.drop_last().contains(c) implies s.contains(c) by {
            let i = choose|i: int| 0 <= i < s.drop_last().len() && s.drop_last()[i] == c;
            assert(s[i] == c);
        }
        lemma_segments_single(s.drop_last(), sep);
        assert(seq![s.drop_last()].drop_last() == Seq::<Seq<char>>::empty());
        assert(s.drop_last().push(s.last()) == s);
    } else {
        assert(s == Seq::<char>::empty());
    }
}

/// Segments of a text, the separator and a piece without separators: the piece
/// is the last segment.
pub proof fn lemma_segments_append(a: Seq<char>, b: Seq<char>, sep: char)
    requires
        !b.contains(sep),
    ensures
        segments(a.push(sep) + b, sep) == segments(a, sep).push(b),
    decreases b.len(),
{
    let whole = a.push(sep) + b;
    if b.len() == 0 {
        assert(whole == a.push(sep));
        assert(whole.drop_last() == a);
        assert(b == Seq::<char>::empty());
    } else {
        assert(b.last() == b[b.len() - 1]);
        assert forall|c: char| b.drop_last().contains(c) implies b.contains(c) by {
            let i = choose|i: int| 0 <= i < b.drop_last().len() && b.drop_last()[i] == c;
            assert(b[i] == c);
        }
        lemma_segments_append(a, b.drop_last(), sep);
        assert(whole.drop_last() == a.push(sep) + b.drop_last());
        assert(segments(a, sep).push(b.drop_last()).drop_last() == segments(a, sep));
        assert(b.drop_last().push(b.last()) == b);
    }
}

/// The segments between occurrences of a separator, empty ones included.
pub fn split_segments(v: &Vec<char>, sep: char) -> (res: Vec<Vec<char>>)
    ensures
        chars_view(res@) == segments(v@, sep),
        res@.len() > 0,
{
    let mut out: Vec<Vec<char>> = Vec::new();
    let mut cur: Vec<char> = Vec::new();
    assert(segments(v@.take(0), sep) == chars_view(out@).push(cur@));
    for i in 0..v.len()
        invariant
            segments(v@.take(i as int), sep) == chars_view(out@).push(cur@),
    {
        let c = v[i];
        let ghost t = v@.take(i + 1);
        assert(t.drop_last() == v@.take(i as int));
        assert(t.last() == c);
        if c == sep {
            let ghost before = out@;
            out.push(cur);
            assert(chars_view(out@) == chars_view(before).push(cur@));
            cur = Vec::new();
        } else {
            let ghost before = cur@;
            cur.push(c);
            assert(chars_view(out@).push(before).drop_last() == chars_view(out@));
        }
    }
    assert(v@.take(v@.len() as int) == v@);
    let ghost before = out@;
    out.push(cur);
    assert(chars_view(out@) == chars_view(before).push(cur@));
    out
}

// ---- ASCII case, prefixes, substrings ----------------------------------

/// The character with ASCII upper case folded to lower case.
pub open spec fn lower(c: char) -> char {
    if 'A' <= c <= 'Z' {
        ((c as u32 + 32) as u8) as char
    } else {
        c
    }
}

/// The text with ASCII upper case folded to lower case.
pub open spec fn lowered(s: Seq<char>) -> Seq<char> {
    s.map_values(|c: char| lower(c))
}

/// The character with ASCII upper case folded to lower case.
pub fn lower_char(c: char) -> (res: char)
    ensures
        res == lower(c),
{
    if 'A' <= c && c <= 'Z' {
        ((c as u32 + 32) as u8) as char
    } else {
        c
    }
}

/// The characters with ASCII upper case folded to lower case.
pub fn lower_chars(v: &Vec<char>) -> (res: Vec<char>)
    ensures
        res@ == lowered(v@),
{
    let mut out: Vec<char> = Vec::new();
    for i in 0..v.len()
        invariant
            out@ == lowered(v@).take(i as int),
    {
        out.push(lower_char(v[i]));
        assert(lowered(v@).take(i + 1) == lowered(v@).take(i as int).push(lower(v@[i as int])));
    }
    assert(lowered(v@).take(v@.len() as int) == lowered(v@));
    out
}

/// Whether `part` stands in `s` at position `at`.
pub open spec fn stands_at(s: Seq<char>, part: Seq<char>, at: int) -> bool {
    &&& 0 <= at
    &&& at + part.len() <= s.len()
    &&& s.subrange(at, at + part.len()) == part
}

/// Whether `s` starts with `part`.
pub open spec fn has_prefix(s: Seq<char>, part: Seq<char>) -> bool {
    stands_at(s, part, 0)
}

/// Whether `part` occurs anywhere in `s`.
pub open spec fn has_part(s: Seq<char>, part: Seq<char>) -> bool {
    exists|at: int| stands_at(s, part, at)
}

/// Whether `part` stands in `v` at position `at`.
pub fn matches_at(v: &Vec<char>, part: &Vec<char>, at: usize) -> (res: bool)
    ensures
        res == stands_at(v@, part@, at as int),
{
    if at > v.len() || part.len() > v.len() - at {
        return false;
    }
    for i in 0..part.len()
        invariant
            at + part.len() <= v.len(),
            forall|j: int| 0 <= j < i ==> v@[at + j] == part@[j],
    {
        if v[at + i] != part[i] {
            assert(v@.subrange(at as int, at + part@.len())[i as int] == v@[at + i]);
            return false;
        }
    }
    assert(v@.subrange(at as int, at + part@.len()) == part@);
    true
}

/// Whether `v` starts with the literal `part`.
pub fn starts_with(v: &Vec<char>, part: &str) -> (res: bool)
    ensures
        res == has_prefix(v@, part@),
{
    let p = chars_of(part);
    matches_at(v, &p, 0)
}

/// Whether `part` occurs anywhere in `v`.
pub fn contains_chars(v: &Vec<char>, part: &Vec<char>) -> (res: bool)
    ensures
        res == has_part(v@, part@),
{
    if part.len() > v.len() {
        assert forall|at: int| !stands_at(v@, part@, at) by {}
        return false;
    }
    let last = v.len() - part.len();
    let mut at: usize = 0;
    while at <= last
        invariant
            last == v.len() - part.len(),
            at <= last + 1,
            part.len() <= v.len(),
            forall|k: int| 0 <= k < at ==> !stands_at(v@, part@, k),
        decreases last + 1 - at,
    {
        if matches_at(v, part, at) {
            return true;
        }
        if at == last {
            assert forall|k: int| !stands_at(v@, part@, k) by {}
            return false;
        }
        at += 1;
    }
    false
}

// ---- numbers -----------------------------------------------------------

/// The decimal digit of a number below ten.
pub open spec fn digit(n: nat) -> char {
    ((n + 48) as u8) as char
}

/// The decimal notation of a natural number.
pub open spec fn digits(n: nat) -> Seq<char>
    decreases n,
{
    if n < 10 {
        seq![digit(n)]
    } else {
        digits(n / 10).push(digit(n % 10))
    }
}

/// The decimal notation of an integer, with a leading minus below zero.
pub open spec fn decimal(n: int) -> Seq<char> {
    if n < 0 {
        seq!['-'] + digits((-n) as nat)
    } else {
        digits(n as nat)
    }
}

/// The decimal notation of an unsigned number.
pub fn unsigned_chars(n: u64) -> (res: Vec<char>)
    ensures
        res@ == digits(n as nat),
    decreases n,
{
    if n < 10 {
        let mut out: Vec<char> = Vec::new();
        out.push((n as u8 + 48) as char);
        assert(out@ == seq![digit(n as nat)]);
        out
    } else {
        let mut out = unsigned_chars(n / 10);
        out.push(((n % 10) as u8 + 48) as char);
        out
    }
}

/// The decimal notation of a signed number.
pub fn signed_chars(n: i64) -> (res: Vec<char>)
    ensures
        res@ == decimal(n as int),
{
    if n < 0 {
        let m: u64 = if n == i64::MIN {
            0x8000_0000_0000_0000
        } else {
            (-n) as u64
        };
        let mut out: Vec<char> = Vec::new();
        out.push('-');
        let tail = unsigned_chars(m);
        append_chars(&mut out, &tail);
        assert(out@ == seq!['-'] + digits((-n) as nat));
        out
    } else {
        unsigned_chars(n as u64)
    }
}

/// Whether every character is ASCII.
pub open spec fn is_ascii_text(s: Seq<char>) -> bool {
    forall|i: int| 0 <= i < s.len() ==> (#[trigger] s[i]) as u32 <= 127
}

/// Whether the character is a hexadecimal digit.
pub open spec fn is_hex(c: char) -> bool {
    ||| '0' <= c <= '9'
    ||| 'a' <= c <= 'f'
    ||| 'A' <= c <= 'F'
}

/// Whether the character is a hexadecimal digit.
pub fn hex_char(c: char) -> (res: bool)
    ensures
        res == is_hex(c),
{
    ('0' <= c && c <= '9') || ('a' <= c && c <= 'f') || ('A' <= c && c <= 'F')
}

/// Whether every character is a hexadecimal digit.
pub fn all_hex(v: &Vec<char>, from: usize) -> (res: bool)
    requires
        from <= v.len(),
    ensures
        res == (forall|i: int| from <= i < v.len() ==> is_hex(#[trigger] v@[i])),
{
    for i in from..v.len()
        invariant
            forall|j: int| from <= j < i ==> is_hex(#[trigger] v@[j]),
    {
        if !hex_char(v[i]) {
            return false;
        }
    }
    true
}

/// The lower-case hexadecimal digit of a number below sixteen.
pub open spec fn hex_digit(n: nat) -> char {
    if n < 10 {
        ((n + 48) as u8) as char
    } else {
        ((n + 87) as u8) as char
    }
}

/// The bytes in lower-case hexadecimal, two digits each.
pub open spec fn hex(bytes: Seq<u8>) -> Seq<char>
    decreases bytes.len(),
{
    if bytes.len() == 0 {
        Seq::empty()
    } else {
        hex(bytes.drop_last()).push(hex_digit((bytes.last() / 16) as nat)).push(
            hex_digit((bytes.last() % 16) as nat),
        )
    }
}

fn hex_digit_char(n: u8) -> (res: char)
    requires
        n < 16,
    ensures
        res == hex_digit(n as nat),
{
    if n < 10 {
        (n + 48) as char
    } else {
        (n + 87) as char
    }
}

/// The first `count` bytes in lower-case hexadecimal.
pub fn hex_chars(bytes: &Vec<u8>, count: usize) -> (res: Vec<char>)
    requires
        count <= bytes.len(),
    ensures
        res@ == hex(bytes@.take(count as int)),
{
    let mut out: Vec<char> = Vec::new();
    for i in 0..count
        invariant
            count <= bytes.len(),
            out@ == hex(bytes@.take(i as int)),
    {
        let ghost t = bytes@.take(i + 1);
        assert(t.drop_last() == bytes@.take(i as int));
        out.push(hex_digit_char(bytes[i] / 16));
        out.push(hex_digit_char(bytes[i] % 16));
        assert(t.last() == bytes@[i as int]);
    }
    out
}

/// Hexadecimal has two digits for each byte.
pub proof fn lemma_hex_len(bytes: Seq<u8>)
    ensures
        hex(bytes).len() == 2 * bytes.len(),
        forall|i: int| 0 <= i < hex(bytes).len() ==> is_hex(#[trigger] hex(bytes)[i]),
    decreases bytes.len(),
{
    if bytes.len() > 0 {
        lemma_hex_len(bytes.drop_last());
    }
}

/// The value of a string of decimal digits.
pub open spec fn digits_value(s: Seq<char>) -> nat
    decreases s.len(),
{
    if s.len() == 0 {
        0
    } else {
        digits_value(s.drop_last()) * 10 + (s.last() as u32 - 48) as nat
    }
}

/// Whether the text is one or more decimal digits.
pub open spec fn is_digits(s: Seq<char>) -> bool {
    &&& s.len() > 0
    &&& forall|i: int| 0 <= i < s.len() ==> '0' <= #[trigger] s[i] <= '9'
}

/// The unsigned number that a text of decimal digits from `from` on stands for,
/// where it is one and does not exceed `limit`.
pub fn parse_digits(v: &Vec<char>, from: usize, limit: u64) -> (res: Option<u64>)
    requires
        from <= v.len(),
    ensures
        match res {
            Some(n) => is_digits(v@.skip(from as int)) && n == digits_value(v@.skip(from as int))
                && n <= limit,
            None => !is_digits(v@.skip(from as int)) || digits_value(v@.skip(from as int)) > limit,
        },
{
    let ghost s = v@.skip(from as int);
    if from == v.len() {
        return None;
    }
    let mut n: u64 = 0;
    let mut over = false;
    for i in from..v.len()
        invariant
            s == v@.skip(from as int),
            from <= i <= v.len(),
            forall|j: int| 0 <= j < i - from ==> '0' <= #[trigger] s[j] <= '9',
            over ==> digits_value(s.take(i - from)) > limit,
            !over ==> n == digits_value(s.take(i - from)) && n <= limit,
    {
        let c = v[i];
        let ghost t = s.take(i - from + 1);
        assert(t.drop_last() == s.take(i - from));
        assert(t.last() == c);
        assert(s[i - from] == c);
        if c < '0' || c > '9' {
            return None;
        }
        let d: u64 = (c as u32 - 48) as u64;
        if !over {
            if n > limit / 10 || n * 10 > limit - (if d <= limit { d } else { limit }) || d
                > limit {
                over = true;
            } else {
                n = n * 10 + d;
            }
        }
    }
    assert(s.take(s.len() as int) == s);
    if over {
        None
    } else {
        Some(n)
    }
}

// ---- alphabets ---------------------------------------------------------

/// The characters of URL-safe base64.
pub open spec fn is_url_char(c: char) -> bool {
    ||| 'A' <= c <= 'Z'
    ||| 'a' <= c <= 'z'
    ||| '0' <= c <= '9'
    ||| c == '-'
    ||| c == '_'
}

} // verus!
