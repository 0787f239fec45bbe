//! The signing tool's command line.

use vstd::prelude::*;
use crate::license::{LicensePayload, PayloadView, Plan};
use crate::text::{
    append_chars, chars_of, decimal, digits, digits_value, is_digits, owned, parse_digits, same,
    signed_chars, string_of, strs_view, unsigned_chars,
};
use crate::trusted::{debug_quoted, quote_debug};
use crate::view::opt_text;

verus! {

/// What the `sign` command was told.
#[derive(Debug)]
pub struct SignArgs {
    pub email: Option<String>,
    pub plan: Plan,
    pub seats: u32,
    /// Term length; none for a perpetual key.
    pub days: Option<i64>,
    /// License id; generated if omitted.
    pub id: Option<String>,
}

/// The content of [`SignArgs`].
pub struct SignView {
    pub email: Option<Seq<char>>,
    pub plan: Plan,
    pub seats: u32,
    pub days: Option<i64>,
    pub id: Option<Seq<char>>,
}

impl View for SignArgs {
    type V = SignView;

    open spec fn view(&self) -> SignView {
        SignView {
            email: opt_text(self.email),
            plan: self.plan,
            seats: self.seats,
            days: self.days,
            id: opt_text(self.id),
        }
    }
}

/// The digits of a number, a leading plus aside.
pub open spec fn unplussed(s: Seq<char>) -> Seq<char> {
    if s.len() > 0 && s[0] == '+' {
        s.skip(1)
    } else {
        s
    }
}

/// The unsigned 32-bit number in decimal notation, a leading plus allowed.
pub open spec fn read_u32(s: Seq<char>) -> Option<u32> {
    let d = unplussed(s);
    if is_digits(d) && digits_value(d) <= u32::MAX {
        Some(digits_value(d) as u32)
    } else {
        None
    }
}

/// The signed 64-bit number in decimal notation, a leading sign allowed.
pub open spec fn read_i64(s: Seq<char>) -> Option<i64> {
    if s.len() > 0 && s[0] == '-' {
        let d = s.skip(1);
        if is_digits(d) && digits_value(d) <= i64::MAX + 1 {
            Some((-(digits_value(d) as int)) as i64)
        } else {
            None
        }
    } else {
        let d = unplussed(s);
        if is_digits(d) && digits_value(d) <= i64::MAX {
            Some(digits_value(d) as i64)
        } else {
            None
        }
    }
}

/// The unsigned 32-bit number in decimal notation, a leading plus allowed.
pub fn parse_u32(s: &str) -> (res: Option<u32>)
    ensures
        res == read_u32(s@),
{
    let v = chars_of(s);
    let from: usize = if v.len() > 0 && v[0] == '+' {
        1
    } else {
        0
    };
    assert(v@.skip(from as int) == unplussed(s@)) by {
        assert(s@.skip(0) == s@);
    }
    match parse_digits(&v, from, u32::MAX as u64) {
        Some(n) => Some(n as u32),
        None => None,
    }
}

/// The signed 64-bit number in decimal notation, a leading sign allowed.
pub fn parse_i64(s: &str) -> (res: Option<i64>)
    ensures
        res == read_i64(s@),
{
    let v = chars_of(s);
    if v.len() > 0 && v[0] == '-' {
        return match parse_digits(&v, 1, 9_223_372_036_854_775_808) {
            Some(n) => if n == 9_223_372_036_854_775_808 {
                Some(i64::MIN)
            } else {
                Some(-(n as i64))
            },
            None => None,
        };
    }
    let from: usize = if v.len() > 0 && v[0] == '+' {
        1
    } else {
        0
    };
    assert(v@.skip(from as int) == unplussed(s@)) by {
        assert(s@.skip(0) == s@);
    }
    match parse_digits(&v, from, i64::MAX as u64) {
        Some(n) => Some(n as i64),
        None => None,
    }
}

/// The settings where nothing is told.
pub open spec fn sign_defaults() -> SignView {
    SignView { email: None, plan: Plan::Personal, seats: 1, days: None, id: None }
}

/// The settings after one more flag with its value, or what is wrong with it.
pub open spec fn with_flag(v: SignView, flag: Seq<char>, value: Seq<char>) -> Result<
    SignView,
    Seq<char>,
> {
    if flag == "--email"@ {
        Ok(SignView { email: Some(value), ..v })
    } else if flag == "--plan"@ {
        if value == "personal"@ {
            Ok(SignView { plan: Plan::Personal, ..v })
        } else if value == "team"@ {
            Ok(SignView { plan: Plan::Team, ..v })
        } else if value == "lifetime"@ {
            Ok(SignView { plan: Plan::Lifetime, ..v })
        } else {
            Err("unknown plan "@ + debug_quoted(value))
        }
    } else if flag == "--seats"@ {
        match read_u32(value) {
            Some(seats) => Ok(SignView { seats, ..v }),
            None => Err("--seats must be a number"@),
        }
    } else if flag == "--days"@ {
        match read_i64(value) {
            Some(days) => Ok(SignView { days: Some(days), ..v }),
            None => Err("--days must be a number"@),
        }
    } else if flag == "--id"@ {
        Ok(SignView { id: Some(value), ..v })
    } else {
        Err("unknown flag "@ + debug_quoted(flag))
    }
}

/// The settings after the flags from position `i` on, each followed by its
/// value, or the first thing that is wrong.
pub open spec fn told(v: SignView, args: Seq<Seq<char>>, i: int) -> Result<SignView, Seq<char>>
    decreases args.len() - i,
{
    if i < 0 || i >= args.len() {
        Ok(v)
    } else if i + 1 >= args.len() {
        Err(args[i] + " needs a value"@)
    } else {
        match with_flag(v, args[i], args[i + 1]) {
            Ok(next) => told(next, args, i + 2),
            Err(message) => Err(message),
        }
    }
}

/// Reads the flags of the `sign` command.
pub fn parse_sign_args(args: &Vec<String>) -> (res: Result<SignArgs, String>)
    ensures
        match told(sign_defaults(), strs_view(args@), 0) {
            Ok(v) => res is Ok && res->Ok_0@ == v,
            Err(message) => res is Err && res->Err_0@ == message,
        },
{
    let ghost all = strs_view(args@);
    let mut out = SignArgs {
        email: None,
        plan: Plan::Personal,
        seats: 1,
        days: None,
        id: None,
    };
    let mut i: usize = 0;
    while i < args.len()
        invariant
            all == strs_view(args@),
            told(sign_defaults(), all, 0) == told(out@, all, i as int),
        decreases args.len() - i,
    {
        let flag = args[i].as_str();
        assert(all[i as int] == flag@);
        if args.len() - i < 2 {
            let mut v = chars_of(flag);
            append_chars(&mut v, &chars_of(" needs a value"));
            return Err(string_of(&v));
        }
        let value = args[i + 1].as_str();
        assert(all[i + 1] == value@);
        let ghost was = out@;
        if same(flag, "--email") {
            out.email = Some(owned(value));
        } else if same(flag, "--plan") {
            out.plan = if same(value, "personal") {
                Plan::Personal
            } else if same(value, "team") {
                Plan::Team
            } else if same(value, "lifetime") {
                Plan::Lifetime
            } else {
                return Err(complaint("unknown plan ", value));
            };
        } else if same(flag, "--seats") {
            match parse_u32(value) {
                Some(n) => {
                    out.seats = n;
                },
                None => {
                    return Err(owned("--seats must be a number"));
                },
            }
        } else if same(flag, "--days") {
            match parse_i64(value) {
                Some(n) => {
                    out.days = Some(n);
                },
                None => {
                    return Err(owned("--days must be a number"));
                },
            }
        } else if same(flag, "--id") {
            out.id = Some(owned(value));
        } else {
            return Err(complaint("unknown flag ", flag));
        }
        assert(with_flag(was, flag@, value@) == Ok::<SignView, Seq<char>>(out@));
        assert(told(was, all, i as int) == told(out@, all, i + 2));
        if args.len() - i == 2 {
            assert(told(out@, all, i + 2) == Ok::<SignView, Seq<char>>(out@));
            return Ok(out);
        }
        i += 2;
    }
    Ok(out)
}

fn complaint(what: &str, about: &str) -> (res: String)
    ensures
        res@ == what@ + debug_quoted(about@),
{
    let quoted = quote_debug(about);
    let mut v = chars_of(what);
    append_chars(&mut v, &chars_of(quoted.as_str()));
    string_of(&v)
}

/// Whether the end of a term stays within the 64-bit range.
pub open spec fn term_fits(days: Option<i64>, issued_at: i64) -> bool {
    match days {
        Some(d) => {
            &&& i64::MIN <= d * 86_400 <= i64::MAX
            &&& i64::MIN <= issued_at + d * 86_400 <= i64::MAX
        },
        None => true,
    }
}

/// Whether the end of a term stays within the 64-bit range.
pub fn is_term(days: Option<i64>, issued_at: i64) -> (res: bool)
    ensures
        res == term_fits(days, issued_at),
{
    match days {
        Some(d) => {
            let term: i128 = d as i128 * 86_400;
            let end: i128 = issued_at as i128 + term;
            i64::MIN as i128 <= term && term <= i64::MAX as i128 && i64::MIN as i128 <= end && end
                <= i64::MAX as i128
        },
        None => true,
    }
}

/// The payload that is signed.
pub open spec fn payload_of(
    args: SignView,
    email: Seq<char>,
    id: Seq<char>,
    issued_at: i64,
) -> PayloadView {
    PayloadView {
        v: 1,
        id,
        email,
        plan: args.plan,
        seats: if args.plan == Plan::Team && args.seats >= 1 {
            args.seats
        } else {
            1
        },
        issued_at,
        expires_at: match args.days {
            Some(d) => Some((issued_at + d * 86_400) as i64),
            None => None,
        },
    }
}

/// The payload that the `sign` command signs, with the given id where none was
/// told. Seats count for team plans only.
pub fn payload_for(args: SignArgs, generated_id: String, issued_at: i64) -> (res: Result<
    LicensePayload,
    String,
>)
    requires
        args.email is Some ==> term_fits(args.days, issued_at),
    ensures
        match args@.email {
            None => res is Err && res->Err_0@ == "--email is required"@,
            Some(email) => res is Ok && res->Ok_0@ == payload_of(
                args@,
                email,
                match args@.id {
                    Some(id) => id,
                    None => generated_id@,
                },
                issued_at,
            ),
        },
{
    let email = match args.email {
        Some(email) => email,
        None => return Err(owned("--email is required")),
    };
    let seats = if args.plan == Plan::Team && args.seats >= 1 {
        args.seats
    } else {
        1
    };
    let expires_at = match args.days {
        Some(d) => Some(issued_at + d * 86_400),
        None => None,
    };
    let id = match args.id {
        Some(id) => id,
        None => generated_id,
    };
    Ok(LicensePayload { v: 1, id, email, plan: args.plan, seats, issued_at, expires_at })
}

/// The summary printed beside a new key.
pub open spec fn summary_of(p: PayloadView) -> Seq<char> {
    "\n  id       "@ + p.id + "\n  email    "@ + p.email + "\n  plan     "@ + p.plan.text()
        + "\n  seats    "@ + digits(p.seats as nat) + "\n  expires  "@ + (match p.expires_at {
        Some(end) => decimal(end as int),
        None => "never"@,
    }) + "\n"@
}

/// The summary printed beside a new key.
pub fn describe(payload: &LicensePayload) -> (res: String)
    ensures
        res@ == summary_of(payload@),
{
    let mut v = chars_of("\n  id       ");
    append_chars(&mut v, &chars_of(payload.id.as_str()));
    append_chars(&mut v, &chars_of("\n  email    "));
    append_chars(&mut v, &chars_of(payload.email.as_str()));
    append_chars(&mut v, &chars_of("\n  plan     "));
    append_chars(&mut v, &chars_of(payload.plan.as_str()));
    append_chars(&mut v, &chars_of("\n  seats    "));
    append_chars(&mut v, &unsigned_chars(payload.seats as u64));
    append_chars(&mut v, &chars_of("\n  expires  "));
    match payload.expires_at {
        Some(end) => append_chars(&mut v, &signed_chars(end)),
        None => append_chars(&mut v, &chars_of("never")),
    }
    append_chars(&mut v, &chars_of("\n"));
    assert(v@ == summary_of(payload@));
    string_of(&v)
}

/// A number written in decimal, with or without a plus sign, reads as that number.
pub proof fn law_numbers_read_back(n: u32, k: i64)
    ensures
        read_u32(digits(n as nat)) == Some(n),
        read_u32(seq!['+'] + digits(n as nat)) == Some(n),
        read_i64(decimal(k as int)) == Some(k),
        k >= 0 ==> read_i64(seq!['+'] + decimal(k as int)) == Some(k),
{
    crate::text_laws::law_digits_read_back(n as nat);
    assert((seq!['+'] + digits(n as nat)).skip(1) =~= digits(n as nat));
    let size: nat = if k < 0 {
        (-k) as nat
    } else {
        k as nat
    };
    crate::text_laws::law_digits_read_back(size);
    assert((seq!['-'] + digits(size)).skip(1) =~= digits(size));
    assert((seq!['+'] + digits(size)).skip(1) =~= digits(size));
}

/// What is no number reads as none: an empty text, a lone sign, or one with a
/// character that is no digit behind the sign.
pub proof fn law_other_texts_are_no_number(s: Seq<char>, i: int)
    requires
        s.len() == 0 || (0 < i < s.len() && !('0' <= s[i] <= '9')) || (s.len() == 1 && !('0' <= s[0]
            <= '9')),
    ensures
        read_u32(s) is None,
        read_i64(s) is None,
{
    if 0 < i < s.len() {
        assert(s.skip(1)[i - 1] == s[i]);
    }
}

/// Each flag sets its own field to the value behind it and no other field.
pub proof fn law_flags_set_their_field(v: SignView, value: Seq<char>, n: u32, days: i64)
    ensures
        with_flag(v, "--email"@, value) == Ok::<SignView, Seq<char>>(
            SignView { email: Some(value), ..v },
        ),
        with_flag(v, "--id"@, value) == Ok::<SignView, Seq<char>>(SignView { id: Some(value), ..v }),
        with_flag(v, "--seats"@, digits(n as nat)) == Ok::<SignView, Seq<char>>(
            SignView { seats: n, ..v },
        ),
        with_flag(v, "--days"@, decimal(days as int)) == Ok::<SignView, Seq<char>>(
            SignView { days: Some(days), ..v },
        ),
        with_flag(v, "--plan"@, Plan::Personal.text()) == Ok::<SignView, Seq<char>>(
            SignView { plan: Plan::Personal, ..v },
        ),
        with_flag(v, "--plan"@, Plan::Team.text()) == Ok::<SignView, Seq<char>>(
            SignView { plan: Plan::Team, ..v },
        ),
        with_flag(v, "--plan"@, Plan::Lifetime.text()) == Ok::<SignView, Seq<char>>(
            SignView { plan: Plan::Lifetime, ..v },
        ),
{
    law_numbers_read_back(n, days);
    reveal_strlit("--email");
    reveal_strlit("--id");
    reveal_strlit("--seats");
    reveal_strlit("--days");
    reveal_strlit("--plan");
    reveal_strlit("personal");
    reveal_strlit("team");
    reveal_strlit("lifetime");
    assert("--email"@[2] == 'e' && "--id"@[2] == 'i' && "--seats"@[2] == 's' && "--days"@[2] == 'd'
        && "--plan"@[2] == 'p');
    assert("personal"@[0] == 'p' && "team"@[0] == 't' && "lifetime"@[0] == 'l');
}

/// A term of some days ends that many days after the key was issued; without a term
/// the key never ends. Seats count for a team alone, and there is always one.
pub proof fn law_terms_count_from_the_issue(
    args: SignView,
    email: Seq<char>,
    id: Seq<char>,
    issued_at: i64,
)
    requires
        term_fits(args.days, issued_at),
    ensures
        ({
            let p = payload_of(args, email, id, issued_at);
            &&& p.email == email && p.id == id && p.plan == args.plan && p.issued_at == issued_at
            &&& args.days is None ==> p.expires_at is None
            &&& args.days matches Some(d) ==> p.expires_at is Some && p.expires_at->0 - issued_at
                == d * 86_400
            &&& p.seats >= 1
            &&& args.plan != Plan::Team ==> p.seats == 1
            &&& args.plan == Plan::Team && args.seats >= 1 ==> p.seats == args.seats
            &&& p.v == 1
        }),
{
}

/// Flags are read from left to right, each with its value; one more at the end
/// counts on top of the others.
pub proof fn law_flags_are_read_in_order(
    v: SignView,
    args: Seq<Seq<char>>,
    flag: Seq<char>,
    value: Seq<char>,
    i: int,
)
    requires
        0 <= i <= args.len(),
        (args.len() - i) % 2 == 0,
    ensures
        told(v, args.push(flag).push(value), i) == (match told(v, args, i) {
            Ok(w) => with_flag(w, flag, value),
            Err(message) => Err(message),
        }),
        told(v, args.push(flag), i) is Err,
    decreases args.len() - i,
{
    let all = args.push(flag).push(value);
    if i < args.len() {
        assert(all[i] == args[i] && all[i + 1] == args[i + 1]);
        assert(args.push(flag)[i] == args[i] && args.push(flag)[i + 1] == args[i + 1]);
        if let Ok(next) = with_flag(v, args[i], args[i + 1]) {
            law_flags_are_read_in_order(next, args, flag, value, i + 2);
        }
    } else {
        assert(all[i] == flag && all[i + 1] == value);
        if let Ok(next) = with_flag(v, flag, value) {
            assert(told(next, all, i + 2) == Ok::<SignView, Seq<char>>(next));
        }
    }
}

/// A flag that is none of the five is an error, and so is a plan, a number of seats
/// or a term that does not read.
pub proof fn law_unknown_flags_are_errors(v: SignView, flag: Seq<char>, value: Seq<char>)
    ensures
        flag != "--email"@ && flag != "--plan"@ && flag != "--seats"@ && flag != "--days"@ && flag
            != "--id"@ ==> with_flag(v, flag, value) is Err,
        flag == "--seats"@ && read_u32(value) is None ==> with_flag(v, flag, value) is Err,
        flag == "--days"@ && read_i64(value) is None ==> with_flag(v, flag, value) is Err,
        flag == "--plan"@ && value != "personal"@ && value != "team"@ && value != "lifetime"@
            ==> with_flag(v, flag, value) is Err,
{
    reveal_strlit("--email");
    reveal_strlit("--id");
    reveal_strlit("--seats");
    reveal_strlit("--days");
    reveal_strlit("--plan");
    assert("--email"@[2] == 'e' && "--id"@[2] == 'i' && "--seats"@[2] == 's' && "--days"@[2] == 'd'
        && "--plan"@[2] == 'p');
}

/// Without flags a key is a personal one for one seat, without end.
pub proof fn law_plain_keys_are_personal()
    ensures
        told(sign_defaults(), Seq::<Seq<char>>::empty(), 0) == Ok::<SignView, Seq<char>>(
            SignView { email: None, plan: Plan::Personal, seats: 1, days: None, id: None },
        ),
{
}

/// The summary shows the license's id, address, plan and seats.
pub proof fn law_summary_shows_the_license(p: PayloadView)
    ensures
        crate::text::has_part(summary_of(p), p.id),
        crate::text::has_part(summary_of(p), p.email),
        crate::text::has_part(summary_of(p), p.plan.text()),
        crate::text::has_part(summary_of(p), "seats    "@ + digits(p.seats as nat)),
        p.expires_at matches Some(end) ==> crate::text::has_part(
            summary_of(p),
            "expires  "@ + decimal(end as int),
        ),
        p.expires_at is None ==> crate::text::has_part(summary_of(p), "never"@),
{
    let end = match p.expires_at {
        Some(end) => decimal(end as int),
        None => "never"@,
    };
    let a = "\n  id       "@;
    let b = a + p.id + "\n  email    "@;
    let c = b + p.email + "\n  plan     "@;
    let d = c + p.plan.text() + "\n  seats    "@;
    let e = d + digits(p.seats as nat) + "\n  expires  "@;
    let all = summary_of(p);
    reveal_strlit("\n  seats    ");
    reveal_strlit("\n  expires  ");
    reveal_strlit("seats    ");
    reveal_strlit("expires  ");
    let gap = seq!['\n', ' ', ' '];
    assert("\n  seats    "@ =~= gap + "seats    "@);
    assert("\n  expires  "@ =~= gap + "expires  "@);
    crate::text_laws::lemma_shown(
        a,
        p.id,
        "\n  email    "@ + p.email + "\n  plan     "@ + p.plan.text() + "\n  seats    "@ + digits(
            p.seats as nat,
        ) + "\n  expires  "@ + end + "\n"@,
        all,
    );
    crate::text_laws::lemma_shown(
        b,
        p.email,
        "\n  plan     "@ + p.plan.text() + "\n  seats    "@ + digits(p.seats as nat)
            + "\n  expires  "@ + end + "\n"@,
        all,
    );
    crate::text_laws::lemma_shown(
        c,
        p.plan.text(),
        "\n  seats    "@ + digits(p.seats as nat) + "\n  expires  "@ + end + "\n"@,
        all,
    );
    crate::text_laws::lemma_shown(
        c + p.plan.text() + gap,
        "seats    "@ + digits(p.seats as nat),
        "\n  expires  "@ + end + "\n"@,
        all,
    );
    crate::text_laws::lemma_shown(d + digits(p.seats as nat) + gap, "expires  "@ + end, "\n"@, all);
    crate::text_laws::lemma_shown(e, end, "\n"@, all);
}

} // verus!
