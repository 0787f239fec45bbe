//! What the operations on text do, in terms of the text alone.

use vstd::prelude::*;
use crate::text::{
    decimal, digit, digits, digits_value, has_part, has_prefix, is_blank, is_digits, is_white, joined,
    lemma_runs_nonempty, lowered, runs, segments, stands_at, trim, trim_end, trim_start,
};

verus! {

// ---- words -------------------------------------------------------------

/// A separator ends what is before it and begins what is behind it: the runs of
/// the two parts, one after the other, are the runs of the whole.
pub proof fn law_runs_come_apart(
    a: Seq<char>,
    c: char,
    b: Seq<char>,
    sep: spec_fn(char) -> bool,
)
    requires
        sep(c),
    ensures
        runs(a.push(c) + b, sep) == runs(a, sep) + runs(b, sep),
    decreases b.len(),
{
    let s = a.push(c) + b;
    if b.len() == 0 {
        assert(s == a.push(c));
        assert(s.drop_last() == a);
        assert(runs(a, sep) + runs(b, sep) == runs(a, sep));
    } else {
        let head = b.drop_last();
        let x = b.last();
        law_runs_come_apart(a, c, head, sep);
        assert(s.drop_last() == a.push(c) + head);
        assert(s.last() == x);
        let left = runs(a, sep);
        let right = runs(head, sep);
        if !sep(x) {
            if b.len() >= 2 && !sep(b[b.len() - 2]) {
                assert(s[s.len() - 2] == b[b.len() - 2]);
                assert(head.last() == b[b.len() - 2]);
                lemma_runs_nonempty(head, sep);
                assert((left + right).drop_last() == left + right.drop_last());
                assert((left + right).last() == right.last());
                assert(runs(s, sep) == left + runs(b, sep));
            } else {
                if b.len() >= 2 {
                    assert(s[s.len() - 2] == b[b.len() - 2]);
                } else {
                    assert(s[s.len() - 2] == c);
                }
                assert(runs(s, sep) == left + runs(b, sep));
            }
        }
    }
}

/// A text without separators is one run.
pub proof fn law_run_stands_alone(w: Seq<char>, sep: spec_fn(char) -> bool)
    requires
        w.len() > 0,
        forall|i: int| 0 <= i < w.len() ==> !sep(#[trigger] w[i]),
    ensures
        runs(w, sep) == seq![w],
    decreases w.len(),
{
    let head = w.drop_last();
    if head.len() > 0 {
        assert forall|i: int| 0 <= i < head.len() implies !sep(#[trigger] head[i]) by {
            assert(head[i] == w[i]);
        }
        law_run_stands_alone(head, sep);
        assert(!sep(w[w.len() - 2]));
        assert(head.push(w.last()) =~= w);
        assert(seq![head].drop_last().push(w) =~= seq![w]);
    } else {
        assert(runs(head, sep) == Seq::<Seq<char>>::empty());
        assert(w == seq![w.last()]);
        assert(Seq::<Seq<char>>::empty().push(w) == seq![w]);
    }
}

/// A text of separators alone has no run.
pub proof fn law_separators_are_no_run(s: Seq<char>, sep: spec_fn(char) -> bool)
    requires
        forall|i: int| 0 <= i < s.len() ==> sep(#[trigger] s[i]),
    ensures
        runs(s, sep).len() == 0,
    decreases s.len(),
{
    if s.len() > 0 {
        let head = s.drop_last();
        assert forall|i: int| 0 <= i < head.len() implies sep(#[trigger] head[i]) by {
            assert(head[i] == s[i]);
        }
        law_separators_are_no_run(head, sep);
    }
}

/// Joined by a separator, texts without it come apart again.
pub proof fn law_joined_words_come_apart(parts: Seq<Seq<char>>, c: char, sep: spec_fn(char) -> bool)
    requires
        sep(c),
        forall|p: int| 0 <= p < parts.len() ==> (#[trigger] parts[p]).len() > 0,
        forall|p: int, k: int|
            0 <= p < parts.len() && 0 <= k < parts[p].len() ==> !sep(#[trigger] parts[p][k]),
    ensures
        runs(joined(parts, seq![c]), sep) == parts,
    decreases parts.len(),
{
    if parts.len() == 0 {
        assert(runs(joined(parts, seq![c]), sep) == parts);
    } else if parts.len() == 1 {
        law_run_stands_alone(parts[0], sep);
        assert(seq![parts[0]] == parts);
    } else {
        let head = parts.drop_last();
        let last = parts.last();
        assert forall|p: int| 0 <= p < head.len() implies (#[trigger] head[p]).len() > 0 by {
            assert(head[p] == parts[p]);
        }
        assert forall|p: int, k: int| 0 <= p < head.len() && 0 <= k < head[p].len() implies !sep(
            #[trigger] head[p][k],
        ) by {
            assert(head[p] == parts[p]);
        }
        law_joined_words_come_apart(head, c, sep);
        let before = joined(head, seq![c]);
        assert(before + seq![c] == before.push(c));
        law_runs_come_apart(before, c, last, sep);
        assert forall|k: int| 0 <= k < last.len() implies !sep(#[trigger] last[k]) by {
            assert(!sep(parts[parts.len() - 1][k]));
        }
        law_run_stands_alone(last, sep);
        assert(head + seq![last] == parts);
    }
}

// ---- trimming ----------------------------------------------------------

/// Trimming takes the whitespace off both ends and nothing else.
pub proof fn law_trim_strips_the_ends(lead: Seq<char>, core: Seq<char>, trail: Seq<char>)
    requires
        is_blank(lead),
        is_blank(trail),
        core.len() == 0 || !is_white(core[0]) && !is_white(core.last()),
    ensures
        trim(lead + core + trail) == core,
{
    if core.len() == 0 {
        let all = lead + core + trail;
        assert forall|i: int| 0 <= i < all.len() implies is_white(#[trigger] all[i]) by {
            if i < lead.len() {
                assert(all[i] == lead[i]);
            } else {
                assert(all[i] == trail[i - lead.len()]);
            }
        }
        crate::text::lemma_trim_blank(all);
        assert(trim(all) =~= core);
    } else {
        assert(lead + core + trail =~= lead + (core + trail));
        lemma_trim_start_skips(lead, core + trail);
        assert((core + trail)[0] == core[0]);
        lemma_trim_end_skips(core, trail);
    }
}

proof fn lemma_trim_start_skips(lead: Seq<char>, rest: Seq<char>)
    requires
        is_blank(lead),
        rest.len() > 0 && !is_white(rest[0]),
    ensures
        trim_start(lead + rest) == rest,
    decreases lead.len(),
{
    if lead.len() == 0 {
        assert(lead + rest =~= rest);
    } else {
        assert((lead + rest)[0] == lead[0]);
        assert((lead + rest).drop_first() =~= lead.drop_first() + rest);
        assert forall|i: int| 0 <= i < lead.drop_first().len() implies is_white(
            #[trigger] lead.drop_first()[i],
        ) by {
            assert(lead.drop_first()[i] == lead[i + 1]);
        }
        lemma_trim_start_skips(lead.drop_first(), rest);
    }
}

proof fn lemma_trim_end_skips(core: Seq<char>, trail: Seq<char>)
    requires
        is_blank(trail),
        core.len() > 0 && !is_white(core.last()),
    ensures
        trim_end(core + trail) == core,
    decreases trail.len(),
{
    if trail.len() == 0 {
        assert(core + trail =~= core);
    } else {
        assert((core + trail).last() == trail.last());
        assert((core + trail).drop_last() =~= core + trail.drop_last());
        assert forall|i: int| 0 <= i < trail.drop_last().len() implies is_white(
            #[trigger] trail.drop_last()[i],
        ) by {
            assert(trail.drop_last()[i] == trail[i]);
        }
        lemma_trim_end_skips(core, trail.drop_last());
    }
}

/// What trimming leaves neither begins nor ends with whitespace, and whitespace is
/// all that went.
pub proof fn law_trim_leaves_the_core(s: Seq<char>) -> (ends: (Seq<char>, Seq<char>))
    ensures
        is_blank(ends.0),
        is_blank(ends.1),
        s == ends.0 + trim(s) + ends.1,
        trim(s).len() > 0 ==> !is_white(trim(s)[0]) && !is_white(trim(s).last()),
{
    let lead = lemma_trim_start_parts(s);
    let rest = trim_start(s);
    let trail = lemma_trim_end_parts(rest);
    assert(s =~= lead + trim(s) + trail);
    if trim(s).len() > 0 {
        assert(trim(s)[0] == rest[0]);
    }
    (lead, trail)
}

proof fn lemma_trim_start_parts(s: Seq<char>) -> (lead: Seq<char>)
    ensures
        is_blank(lead),
        s == lead + trim_start(s),
        trim_start(s).len() > 0 ==> !is_white(trim_start(s)[0]),
    decreases s.len(),
{
    if s.len() > 0 && is_white(s[0]) {
        let more = lemma_trim_start_parts(s.drop_first());
        let lead = seq![s[0]] + more;
        assert forall|i: int| 0 <= i < lead.len() implies is_white(#[trigger] lead[i]) by {
            if i > 0 {
                assert(lead[i] == more[i - 1]);
            }
        }
        assert(s =~= seq![s[0]] + s.drop_first());
        assert(s =~= lead + trim_start(s));
        lead
    } else {
        assert(s =~= Seq::<char>::empty() + s);
        Seq::empty()
    }
}

proof fn lemma_trim_end_parts(s: Seq<char>) -> (trail: Seq<char>)
    ensures
        is_blank(trail),
        s == trim_end(s) + trail,
        trim_end(s).len() > 0 ==> !is_white(trim_end(s).last()),
    decreases s.len(),
{
    if s.len() > 0 && is_white(s.last()) {
        let more = lemma_trim_end_parts(s.drop_last());
        let trail = more.push(s.last());
        assert forall|i: int| 0 <= i < trail.len() implies is_white(#[trigger] trail[i]) by {
            if i < more.len() {
                assert(trail[i] == more[i]);
            }
        }
        assert(s =~= s.drop_last().push(s.last()));
        assert(s =~= trim_end(s) + trail);
        trail
    } else {
        assert(s =~= s + Seq::<char>::empty());
        Seq::empty()
    }
}

/// The blank and the tabulator, line feed and carriage return are whitespace; the
/// visible ASCII characters are not.
pub proof fn law_ascii_whitespace(c: char)
    ensures
        c == ' ' || c == '\t' || c == '\n' || c == '\r' ==> is_white(c),
        '!' <= c <= '~' ==> !is_white(c),
{
}

// ---- case and substrings -----------------------------------------------

/// Folding ASCII case makes lower-case letters of upper-case ones, leaves every
/// other character, and keeps the length.
pub proof fn law_case_folding(s: Seq<char>, i: int)
    requires
        0 <= i < s.len(),
    ensures
        lowered(s).len() == s.len(),
        'A' <= s[i] <= 'Z' ==> lowered(s)[i] as u32 == s[i] as u32 + 32,
        !('A' <= s[i] <= 'Z') ==> lowered(s)[i] == s[i],
{
}

/// A text begins with another exactly where it is that text and more behind it.
pub proof fn law_prefix_begins(s: Seq<char>, part: Seq<char>)
    ensures
        has_prefix(s, part) <==> exists|rest: Seq<char>| #[trigger] (part + rest) == s,
{
    if has_prefix(s, part) {
        let rest = s.skip(part.len() as int);
        assert(part + rest =~= s) by {
            assert(s.subrange(0, part.len() as int) == part);
            assert forall|i: int| 0 <= i < part.len() implies s[i] == part[i] by {
                assert(s.subrange(0, part.len() as int)[i] == s[i]);
            }
        }
    }
    if exists|rest: Seq<char>| #[trigger] (part + rest) == s {
        let rest = choose|rest: Seq<char>| #[trigger] (part + rest) == s;
        assert((part + rest).subrange(0, part.len() as int) =~= part);
    }
}

/// A text occurs in another exactly where something before it and something behind
/// it make up the other.
pub proof fn law_part_occurs(s: Seq<char>, part: Seq<char>)
    ensures
        has_part(s, part) <==> exists|before: Seq<char>, behind: Seq<char>|
            #[trigger] (before + part + behind) == s,
{
    if has_part(s, part) {
        let at = choose|at: int| stands_at(s, part, at);
        let before = s.take(at);
        let behind = s.skip(at + part.len());
        assert forall|i: int| 0 <= i < part.len() implies s[at + i] == part[i] by {
            assert(s.subrange(at, at + part.len())[i] == s[at + i]);
        }
        assert(before + part + behind =~= s);
    }
    if exists|before: Seq<char>, behind: Seq<char>| #[trigger] (before + part + behind) == s {
        let (before, behind) = choose|before: Seq<char>, behind: Seq<char>|
            #[trigger] (before + part + behind) == s;
        let at = before.len() as int;
        assert((before + part + behind).subrange(at, at + part.len()) =~= part);
        assert(stands_at(s, part, at));
    }
}

/// What stands between two texts occurs in the three together.
pub proof fn lemma_shown(before: Seq<char>, part: Seq<char>, behind: Seq<char>, all: Seq<char>)
    requires
        before + part + behind =~= all,
    ensures
        has_part(all, part),
{
    law_part_occurs(all, part);
}

/// Lines come apart at the separator: what is before the first one is the first
/// segment.
pub proof fn law_segments_come_apart(first: Seq<char>, sep: char, rest: Seq<char>)
    requires
        !first.contains(sep),
    ensures
        segments(first.push(sep) + rest, sep) == seq![first] + segments(rest, sep),
        segments(first, sep) == seq![first],
    decreases rest.len(),
{
    crate::text::lemma_segments_single(first, sep);
    let s = first.push(sep) + rest;
    if rest.len() == 0 {
        assert(s =~= first.push(sep));
        assert(s.drop_last() =~= first);
        assert(seq![first].push(Seq::<char>::empty()) =~= seq![first] + seq![Seq::<char>::empty()]);
    } else {
        let head = rest.drop_last();
        law_segments_come_apart(first, sep, head);
        assert(s.drop_last() =~= first.push(sep) + head);
        assert(s.last() == rest.last());
        let tail = segments(head, sep);
        crate::text::lemma_segments_nonempty(head, sep);
        if rest.last() == sep {
            assert((seq![first] + tail).push(Seq::<char>::empty()) =~= seq![first] + tail.push(
                Seq::<char>::empty(),
            ));
        } else {
            assert((seq![first] + tail).drop_last() =~= seq![first] + tail.drop_last());
            assert((seq![first] + tail).last() == tail.last());
            let grown = tail.last().push(rest.last());
            assert((seq![first] + tail.drop_last()).push(grown) =~= seq![first]
                + tail.drop_last().push(grown));
        }
    }
}

// ---- numbers -----------------------------------------------------------

/// A number in decimal reads back as the number: it is made of digits alone, each
/// counting ten times as much as the next.
pub proof fn law_digits_read_back(n: nat)
    ensures
        is_digits(digits(n)),
        digits_value(digits(n)) == n,
        n > 0 ==> digits(n)[0] != '0',
        n == 0 ==> digits(n) == seq!['0'],
    decreases n,
{
    let d = digit(n % 10);
    assert(d as u32 == n % 10 + 48);
    if n >= 10 {
        law_digits_read_back(n / 10);
        let head = digits(n / 10);
        assert(digits(n).drop_last() =~= head);
        assert(digits(n).last() == d);
        assert forall|i: int| 0 <= i < digits(n).len() implies '0' <= #[trigger] digits(n)[i] <= '9' by {
            if i < head.len() {
                assert(digits(n)[i] == head[i]);
            }
        }
        assert(digits(n)[0] == head[0]);
    } else {
        assert(digits(n) == seq![d]);
        assert(digits(n).drop_last() =~= Seq::<char>::empty());
        assert(digits_value(digits(n).drop_last()) == 0);
        assert(digits_value(digits(n)) == n);
    }
}

/// A digit string's value is that of what is before its last digit, ten times,
/// plus the last digit.
pub proof fn law_digits_count_tenfold(s: Seq<char>, d: nat)
    requires
        d < 10,
    ensures
        digits_value(s.push((d + 48) as char)) == digits_value(s) * 10 + d,
        digits_value(Seq::<char>::empty()) == 0,
{
    let c = (d + 48) as char;
    assert(s.push(c).drop_last() =~= s);
    assert(c as u32 == d + 48);
}

/// A negative number is a minus sign and its opposite; any other has no sign.
pub proof fn law_sign_is_a_leading_minus(n: int)
    ensures
        n < 0 ==> decimal(n) == seq!['-'] + decimal(-n),
        n >= 0 ==> digits_value(decimal(n)) == n && is_digits(decimal(n)),
{
    if n >= 0 {
        law_digits_read_back(n as nat);
    }
}

} // verus!
