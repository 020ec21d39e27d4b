//! Secret and PII redaction for logs, traces and diagnostic bundles.

use vstd::prelude::*;
use crate::text::{is_space, string_of, chars_of};
use crate::policy::lifecycle::string_views;

verus! {

/// The default secret canary injected by CI and local tests.
pub const DEFAULT_SECRET_CANARY: &'static str = "qncy_test_canary_not_for_prod";

/// The replacement for a canary value.
pub const CANARY_PLACEHOLDER: &'static str = "[REDACTED:canary]";

/// `s` with every non-overlapping occurrence of `pat`, left to right, replaced by `rep`.
pub open spec fn replace_all(s: Seq<char>, pat: Seq<char>, rep: Seq<char>) -> Seq<char>
    decreases s.len(),
{
    if pat.len() == 0 || s.len() < pat.len() {
        s
    } else if s.take(pat.len() as int) == pat {
        rep + replace_all(s.skip(pat.len() as int), pat, rep)
    } else {
        seq![s[0]] + replace_all(s.drop_first(), pat, rep)
    }
}

/// `s` with every non-empty canary of `canaries` replaced by the placeholder, in order.
pub open spec fn scrub_canaries(s: Seq<char>, canaries: Seq<Seq<char>>) -> Seq<char>
    decreases canaries.len(),
{
    if canaries.len() == 0 {
        s
    } else {
        let t = scrub_canaries(s, canaries.drop_last());
        if canaries.last().len() == 0 {
            t
        } else {
            replace_all(t, canaries.last(), CANARY_PLACEHOLDER@)
        }
    }
}

/// Whether `c` ends a credential-shaped token: white space or a quote.
pub open spec fn stops_token(c: char) -> bool {
    is_space(c) || c == '"' || c == '\''
}

/// `s` from the first character that ends a token.
pub open spec fn after_token(s: Seq<char>) -> Seq<char>
    decreases s.len(),
{
    if s.len() == 0 || stops_token(s[0]) {
        s
    } else {
        after_token(s.drop_first())
    }
}

/// What follows a token is a suffix of the text.
pub proof fn lemma_after_token_shorter(s: Seq<char>)
    ensures
        after_token(s).len() <= s.len(),
        after_token(s) == s.skip(s.len() - after_token(s).len()),
    decreases s.len(),
{
    if s.len() > 0 && !stops_token(s[0]) {
        lemma_after_token_shorter(s.drop_first());
        assert(s.drop_first().skip(s.drop_first().len() - after_token(s.drop_first()).len()) =~= s.skip(
            s.len() - after_token(s).len(),
        ));
    } else {
        assert(s.skip(0) =~= s);
    }
}

/// `s` with every token starting with `prefix` replaced by `placeholder`, the token
/// running to the next white space or quote.
pub open spec fn redact_token(s: Seq<char>, prefix: Seq<char>, placeholder: Seq<char>) -> Seq<char>
    decreases s.len(),
{
    if prefix.len() == 0 || s.len() < prefix.len() {
        s
    } else if s.take(prefix.len() as int) == prefix {
        proof {
            lemma_after_token_shorter(s.skip(prefix.len() as int));
        }
        placeholder + redact_token(after_token(s.skip(prefix.len() as int)), prefix, placeholder)
    } else {
        seq![s[0]] + redact_token(s.drop_first(), prefix, placeholder)
    }
}

/// `s` with the credential-shaped tokens redacted: bearer tokens, then the secret-key
/// prefixes.
pub open spec fn redact_tokens(s: Seq<char>) -> Seq<char> {
    let sec = "[REDACTED:secret]"@;
    redact_token(
        redact_token(
            redact_token(redact_token(redact_token(s, "Bearer "@, "[REDACTED:bearer]"@), "sk-"@, sec), "ghp_"@, sec),
            "xoxb-"@,
            sec,
        ),
        "AKIA"@,
        sec,
    )
}

/// Whether `s` at `i` holds `pat`.
fn matches_at(s: &Vec<char>, i: usize, pat: &Vec<char>) -> (r: bool)
    requires
        i <= s@.len(),
    ensures
        r == (pat@.len() <= s@.len() - i && s@.skip(i as int).take(pat@.len() as int) == pat@),
{
    if pat.len() > s.len() - i {
        return false;
    }
    let mut k: usize = 0;
    while k < pat.len()
        invariant
            i + pat@.len() <= s@.len(),
            s@.len() <= usize::MAX,
            k <= pat@.len(),
            forall|q: int| 0 <= q < k ==> s@[i + q] == pat@[q],
        decreases pat@.len() - k,
    {
        if s[i + k] != pat[k] {
            proof {
                assert(s@.skip(i as int).take(pat@.len() as int)[k as int] != pat@[k as int]);
            }
            return false;
        }
        k = k + 1;
    }
    proof {
        assert(s@.skip(i as int).take(pat@.len() as int) =~= pat@);
    }
    true
}

/// Append `t` to `out`.
fn append_chars(out: &mut Vec<char>, t: &Vec<char>)
    ensures
        final(out)@ == old(out)@ + t@,
{
    let mut k: usize = 0;
    while k < t.len()
        invariant
            k <= t@.len(),
            out@ == old(out)@ + t@.take(k as int),
        decreases t@.len() - k,
    {
        out.push(t[k]);
        proof {
            assert(t@.take(k + 1) =~= t@.take(k as int).push(t@[k as int]));
        }
        k = k + 1;
    }
    proof {
        assert(t@.take(t@.len() as int) =~= t@);
    }
}

/// `s` with every non-overlapping occurrence of `pat` replaced by `rep`.
fn replace_chars(s: &Vec<char>, pat: &Vec<char>, rep: &Vec<char>) -> (r: Vec<char>)
    requires
        pat@.len() > 0,
    ensures
        r@ == replace_all(s@, pat@, rep@),
{
    let mut out: Vec<char> = Vec::new();
    let mut i: usize = 0;
    proof {
        assert(s@.skip(0) =~= s@);
    }
    while i < s.len()
        invariant
            i <= s@.len(),
            pat@.len() > 0,
            replace_all(s@, pat@, rep@) == out@ + replace_all(s@.skip(i as int), pat@, rep@),
        decreases s@.len() - i,
    {
        let ghost t = s@.skip(i as int);
        if matches_at(s, i, pat) {
            append_chars(&mut out, rep);
            proof {
                assert(t.skip(pat@.len() as int) =~= s@.skip(i + pat@.len()));
            }
            i = i + pat.len();
        } else {
            proof {
                assert(t.drop_first() =~= s@.skip(i + 1));
                assert(t[0] == s@[i as int]);
            }
            out.push(s[i]);
            i = i + 1;
        }
    }
    proof {
        assert(s@.skip(i as int) =~= Seq::<char>::empty());
    }
    out
}

/// Whether `c` ends a credential-shaped token.
fn is_token_stop(c: char) -> (r: bool)
    ensures
        r == stops_token(c),
{
    crate::text::char_is_space(c) || c == '"' || c == '\''
}

/// `s` with every token starting with `prefix` replaced by `placeholder`.
fn redact_token_chars(s: &Vec<char>, prefix: &Vec<char>, placeholder: &Vec<char>) -> (r: Vec<char>)
    requires
        prefix@.len() > 0,
    ensures
        r@ == redact_token(s@, prefix@, placeholder@),
{
    let mut out: Vec<char> = Vec::new();
    let mut i: usize = 0;
    proof {
        assert(s@.skip(0) =~= s@);
    }
    while i < s.len()
        invariant
            i <= s@.len(),
            prefix@.len() > 0,
            redact_token(s@, prefix@, placeholder@) == out@ + redact_token(s@.skip(i as int), prefix@, placeholder@),
        decreases s@.len() - i,
    {
        let ghost t = s@.skip(i as int);
        if matches_at(s, i, prefix) {
            append_chars(&mut out, placeholder);
            let mut j = i + prefix.len();
            proof {
                assert(t.skip(prefix@.len() as int) =~= s@.skip(j as int));
            }
            while j < s.len() && !is_token_stop(s[j])
                invariant
                    i + prefix@.len() <= j <= s@.len(),
                    after_token(t.skip(prefix@.len() as int)) == after_token(s@.skip(j as int)),
                    t == s@.skip(i as int),
                decreases s@.len() - j,
            {
                proof {
                    assert(s@.skip(j as int)[0] == s@[j as int]);
                    assert(s@.skip(j as int).drop_first() =~= s@.skip(j + 1));
                }
                j = j + 1;
            }
            proof {
                if j < s@.len() {
                    assert(s@.skip(j as int)[0] == s@[j as int]);
                } else {
                    assert(s@.skip(j as int) =~= Seq::<char>::empty());
                }
            }
            i = j;
        } else {
            proof {
                assert(t.drop_first() =~= s@.skip(i + 1));
                assert(t[0] == s@[i as int]);
            }
            out.push(s[i]);
            i = i + 1;
        }
    }
    proof {
        assert(s@.skip(i as int) =~= Seq::<char>::empty());
    }
    out
}


/// Whether character `c` may be part of an email address: an ASCII letter or digit, or
/// one of `.`, `_`, `-` and `+`.
pub open spec fn email_char(c: char) -> bool {
    ('a' <= c <= 'z') || ('A' <= c <= 'Z') || ('0' <= c <= '9') || c == '.' || c == '_' || c == '-' || c == '+'
}

/// The first index of the run of email characters that ends at `k`.
pub open spec fn email_start(s: Seq<char>, k: int) -> int
    decreases k,
{
    if k > 0 && k <= s.len() && email_char(s[k - 1]) {
        email_start(s, k - 1)
    } else {
        k
    }
}

/// The index just past the run of email characters that starts at `k`.
pub open spec fn email_end(s: Seq<char>, k: int) -> int
    decreases s.len() - k,
{
    if 0 <= k < s.len() && email_char(s[k]) {
        email_end(s, k + 1)
    } else {
        k
    }
}

/// The length of the UTF-8 encoding of `c`.
pub open spec fn utf8_len(c: char) -> int {
    if (c as u32) < 0x80 {
        1
    } else if (c as u32) < 0x800 {
        2
    } else if (c as u32) < 0x10000 {
        3
    } else {
        4
    }
}

/// `out` with its last `n` bytes removed (all of it when `n` reaches past its start), or
/// `None` when the cut falls inside a character.
pub open spec fn drop_bytes(out: Seq<char>, n: int) -> Option<Seq<char>>
    decreases out.len(),
{
    if n < 0 {
        None
    } else if n == 0 || out.len() == 0 {
        Some(out)
    } else {
        drop_bytes(out.drop_last(), n - utf8_len(out.last()))
    }
}

/// The run of email characters from `k` ends at or after `k`.
pub proof fn lemma_email_end_after(s: Seq<char>, k: int)
    ensures
        email_end(s, k) >= k,
        k <= s.len() ==> email_end(s, k) <= s.len(),
    decreases s.len() - k,
{
    if 0 <= k < s.len() && email_char(s[k]) {
        lemma_email_end_after(s, k + 1);
    }
}

/// Email redaction of `s` from index `i`, `out` holding what was written so far; `None`
/// when a cut would fall inside a character. Every character is written as it is, except
/// that an `@` with an address on both sides, its domain not starting with a dot,
/// replaces the address with the email placeholder: what was already written of the
/// local part (as many bytes as it has characters, all of them ASCII) is cut from `out`.
pub open spec fn emails_from(s: Seq<char>, i: int, out: Seq<char>) -> Option<Seq<char>>
    decreases s.len() - i,
{
    if i < 0 || i >= s.len() {
        Some(out)
    } else {
        let start = email_start(s, i);
        let end = email_end(s, i + 1);
        if s[i] == '@' && i > 0 && start < i && end > i + 1 && s[i + 1] != '.' {
            proof {
                lemma_email_end_after(s, i + 1);
            }
            match drop_bytes(out, i - start) {
                Some(kept) => emails_from(s, end, kept + "[REDACTED:email]"@),
                None => None,
            }
        } else {
            emails_from(s, i + 1, out.push(s[i]))
        }
    }
}

/// Whether character `c` may be part of an email address.
fn is_email_char(c: char) -> (r: bool)
    ensures
        r == email_char(c),
{
    ('a' <= c && c <= 'z') || ('A' <= c && c <= 'Z') || ('0' <= c && c <= '9') || c == '.' || c == '_' || c == '-'
        || c == '+'
}

/// The length of the UTF-8 encoding of `c`.
fn char_utf8_len(c: char) -> (r: usize)
    ensures
        r == utf8_len(c),
{
    let v = c as u32;
    if v < 0x80 {
        1
    } else if v < 0x800 {
        2
    } else if v < 0x10000 {
        3
    } else {
        4
    }
}

/// The email-redacted text of `s`, or `None` when a cut would fall inside a character.
fn redact_emails(s: &Vec<char>) -> (r: Option<Vec<char>>)
    ensures
        match r {
            Some(v) => emails_from(s@, 0, Seq::empty()) == Some(v@),
            None => emails_from(s@, 0, Seq::empty()) is None,
        },
{
    let mut out: Vec<char> = Vec::new();
    let mut i: usize = 0;
    let placeholder = chars_of("[REDACTED:email]");
    while i < s.len()
        invariant
            i <= s@.len(),
            placeholder@ == "[REDACTED:email]"@,
            emails_from(s@, 0, Seq::empty()) == emails_from(s@, i as int, out@),
        decreases s@.len() - i,
    {
        if s[i] == '@' && i > 0 {
            let mut start = i;
            while start > 0 && is_email_char(s[start - 1])
                invariant
                    start <= i < s@.len(),
                    email_start(s@, i as int) == email_start(s@, start as int),
                decreases start,
            {
                start = start - 1;
            }
            let mut end = i + 1;
            while end < s.len() && is_email_char(s[end])
                invariant
                    i + 1 <= end <= s@.len(),
                    email_end(s@, i + 1) == email_end(s@, end as int),
                decreases s@.len() - end,
            {
                end = end + 1;
            }
            if start < i && end > i + 1 && s[i + 1] != '.' {
                let mut n = i - start;
                let ghost o0 = out@;
                let ghost n0 = n as int;
                proof {
                    assert(emails_from(s@, i as int, o0) == match drop_bytes(o0, n0) {
                        Some(kept) => emails_from(s@, end as int, kept + "[REDACTED:email]"@),
                        None => None,
                    });
                }
                while n > 0 && out.len() > 0
                    invariant
                        drop_bytes(o0, n0) == drop_bytes(out@, n as int),
                        emails_from(s@, 0, Seq::empty()) == match drop_bytes(o0, n0) {
                            Some(kept) => emails_from(s@, end as int, kept + "[REDACTED:email]"@),
                            None => None,
                        },
                    decreases out@.len(),
                {
                    proof {
                        assert(drop_bytes(out@, n as int) == drop_bytes(out@.drop_last(), n - utf8_len(out@.last())));
                    }
                    let c = out.pop().unwrap();
                    let l = char_utf8_len(c);
                    if l > n {
                        return None;
                    }
                    n = n - l;
                }
                proof {
                    assert(drop_bytes(out@, n as int) == Some(out@));
                }
                append_chars(&mut out, &placeholder);
                i = end;
                continue;
            }
        }
        out.push(s[i]);
        i = i + 1;
    }
    Some(out)
}

/// The redaction of `input` with `canaries` scrubbed: canaries first, then
/// credential-shaped tokens, then email addresses; `None` on the inputs where the email
/// pass would cut inside a character.
pub open spec fn redacted(input: Seq<char>, canaries: Seq<Seq<char>>) -> Option<Seq<char>> {
    emails_from(redact_tokens(scrub_canaries(input, canaries)), 0, Seq::empty())
}

/// Whether `pat` occurs in `s`.
pub open spec fn occurs(s: Seq<char>, pat: Seq<char>) -> bool {
    exists|i: int| 0 <= i && i + pat.len() <= s.len() && #[trigger] s.subrange(i, i + pat.len()) == pat
}

/// An occurrence in the tail of `s` is an occurrence in `s`.
proof fn lemma_occurs_tail(s: Seq<char>, pat: Seq<char>, i: int)
    requires
        s.len() > 0,
        0 <= i,
        i + pat.len() <= s.len() - 1,
        s.drop_first().subrange(i, i + pat.len()) == pat,
    ensures
        occurs(s, pat),
{
    assert(s.subrange(i + 1, i + 1 + pat.len()) =~= s.drop_first().subrange(i, i + pat.len()));
}

/// Replacing a pattern that does not occur changes nothing.
proof fn lemma_replace_absent(s: Seq<char>, pat: Seq<char>, rep: Seq<char>)
    requires
        !occurs(s, pat),
    ensures
        replace_all(s, pat, rep) == s,
    decreases s.len(),
{
    if pat.len() == 0 || s.len() < pat.len() {
    } else {
        assert(s.subrange(0, 0int + pat.len()) =~= s.take(pat.len() as int));
        assert(s.take(pat.len() as int) != pat);
        assert(!occurs(s.drop_first(), pat)) by {
            if occurs(s.drop_first(), pat) {
                let i = choose|i: int| 0 <= i && i + pat.len() <= s.drop_first().len() && #[trigger] s.drop_first().subrange(
                    i,
                    i + pat.len(),
                ) == pat;
                lemma_occurs_tail(s, pat, i);
            }
        }
        lemma_replace_absent(s.drop_first(), pat, rep);
        assert(seq![s[0]] + s.drop_first() =~= s);
    }
}

/// Redacting tokens behind a prefix that does not occur changes nothing.
proof fn lemma_token_absent(s: Seq<char>, prefix: Seq<char>, placeholder: Seq<char>)
    requires
        !occurs(s, prefix),
    ensures
        redact_token(s, prefix, placeholder) == s,
    decreases s.len(),
{
    if prefix.len() == 0 || s.len() < prefix.len() {
    } else {
        assert(s.subrange(0, 0int + prefix.len()) =~= s.take(prefix.len() as int));
        assert(s.take(prefix.len() as int) != prefix);
        assert(!occurs(s.drop_first(), prefix)) by {
            if occurs(s.drop_first(), prefix) {
                let i = choose|i: int| 0 <= i && i + prefix.len() <= s.drop_first().len() && #[trigger] s.drop_first().subrange(
                    i,
                    i + prefix.len(),
                ) == prefix;
                lemma_occurs_tail(s, prefix, i);
            }
        }
        lemma_token_absent(s.drop_first(), prefix, placeholder);
        assert(seq![s[0]] + s.drop_first() =~= s);
    }
}

/// Scrubbing canaries none of which occurs changes nothing.
proof fn lemma_scrub_absent(s: Seq<char>, canaries: Seq<Seq<char>>)
    requires
        forall|k: int| 0 <= k < canaries.len() && canaries[k].len() > 0 ==> !occurs(s, #[trigger] canaries[k]),
    ensures
        scrub_canaries(s, canaries) == s,
    decreases canaries.len(),
{
    if canaries.len() > 0 {
        let rest = canaries.drop_last();
        assert forall|k: int| 0 <= k < rest.len() && rest[k].len() > 0 implies !occurs(s, #[trigger] rest[k]) by {
            assert(rest[k] == canaries[k]);
        }
        lemma_scrub_absent(s, rest);
        if canaries.last().len() > 0 {
            assert(!occurs(s, canaries[canaries.len() - 1]));
            lemma_replace_absent(s, canaries.last(), CANARY_PLACEHOLDER@);
        }
    }
}

/// Without an `@`, the email pass writes every character as it is.
proof fn lemma_emails_absent(s: Seq<char>, i: int, out: Seq<char>)
    requires
        0 <= i <= s.len(),
        !s.contains('@'),
    ensures
        emails_from(s, i, out) == Some(out + s.skip(i)),
    decreases s.len() - i,
{
    if i < s.len() {
        assert(s[i] != '@');
        lemma_emails_absent(s, i + 1, out.push(s[i]));
        assert(out.push(s[i]) + s.skip(i + 1) =~= out + s.skip(i));
    } else {
        assert(out + s.skip(i) =~= out);
    }
}

/// Text with nothing to redact (no configured canary, no credential-shaped prefix and no
/// `@`) comes back unchanged.
pub proof fn law_nothing_to_redact_is_unchanged(input: Seq<char>, canaries: Seq<Seq<char>>)
    requires
        forall|k: int| 0 <= k < canaries.len() && canaries[k].len() > 0 ==> !occurs(input, #[trigger] canaries[k]),
        !occurs(input, "Bearer "@),
        !occurs(input, "sk-"@),
        !occurs(input, "ghp_"@),
        !occurs(input, "xoxb-"@),
        !occurs(input, "AKIA"@),
        !input.contains('@'),
    ensures
        redacted(input, canaries) == Some(input),
{
    lemma_scrub_absent(input, canaries);
    let sec = "[REDACTED:secret]"@;
    lemma_token_absent(input, "Bearer "@, "[REDACTED:bearer]"@);
    lemma_token_absent(input, "sk-"@, sec);
    lemma_token_absent(input, "ghp_"@, sec);
    lemma_token_absent(input, "xoxb-"@, sec);
    lemma_token_absent(input, "AKIA"@, sec);
    lemma_emails_absent(input, 0, Seq::empty());
    assert(Seq::<char>::empty() + input.skip(0) =~= input);
}

/// A pattern with a character that `s` never holds does not occur in `s`.
proof fn lemma_absent_char(s: Seq<char>, pat: Seq<char>, j: int)
    requires
        0 <= j < pat.len(),
        forall|i: int| 0 <= i < s.len() ==> s[i] != pat[j],
    ensures
        !occurs(s, pat),
{
    if occurs(s, pat) {
        let i = choose|i: int| 0 <= i && i + pat.len() <= s.len() && #[trigger] s.subrange(i, i + pat.len()) == pat;
        assert(s.subrange(i, i + pat.len())[j] == s[i + j]);
    }
}

/// A pattern that occurs in neither part, and that cannot straddle the join because one
/// side's character at the join is not in it, does not occur in the whole.
proof fn lemma_concat_absent(a: Seq<char>, b: Seq<char>, pat: Seq<char>)
    requires
        !occurs(a, pat),
        !occurs(b, pat),
        (a.len() > 0 && !pat.contains(a.last())) || (b.len() > 0 && !pat.contains(b[0])),
    ensures
        !occurs(a + b, pat),
{
    let w = a + b;
    if occurs(w, pat) {
        let i = choose|i: int| 0 <= i && i + pat.len() <= w.len() && #[trigger] w.subrange(i, i + pat.len()) == pat;
        let sub = w.subrange(i, i + pat.len());
        if i + pat.len() <= a.len() {
            assert(a.subrange(i, i + pat.len()) =~= sub);
        } else if i >= a.len() {
            let k = i - a.len();
            assert(b.subrange(k, k + pat.len()) =~= sub);
        } else {
            assert(sub[a.len() - 1 - i] == a.last());
            assert(sub[a.len() - i] == b[0]);
        }
    }
}

/// A pattern absent from `s` is absent from every suffix of it.
proof fn lemma_suffix_absent(s: Seq<char>, pat: Seq<char>, k: int)
    requires
        !occurs(s, pat),
        0 <= k <= s.len(),
    ensures
        !occurs(s.skip(k), pat),
{
    let t = s.skip(k);
    if occurs(t, pat) {
        let i = choose|i: int| 0 <= i && i + pat.len() <= t.len() && #[trigger] t.subrange(i, i + pat.len()) == pat;
        assert(s.subrange(i + k, (i + k) + pat.len()) =~= t.subrange(i, i + pat.len()));
    }
}

/// A pattern absent from `s` is absent from every prefix of it.
proof fn lemma_prefix_absent(s: Seq<char>, pat: Seq<char>, k: int)
    requires
        !occurs(s, pat),
        0 <= k <= s.len(),
    ensures
        !occurs(s.take(k), pat),
{
    let t = s.take(k);
    if occurs(t, pat) {
        let i = choose|i: int| 0 <= i && i + pat.len() <= t.len() && #[trigger] t.subrange(i, i + pat.len()) == pat;
        assert(s.subrange(i, i + pat.len()) =~= t.subrange(i, i + pat.len()));
    }
}

/// Until the first `[` of a placeholder, token redaction leaves the text as it was.
proof fn lemma_token_keeps_start(s: Seq<char>, prefix: Seq<char>, placeholder: Seq<char>, m: int)
    requires
        placeholder.len() > 0,
        placeholder[0] == '[',
        0 <= m <= redact_token(s, prefix, placeholder).len(),
        forall|i: int| 0 <= i < m ==> redact_token(s, prefix, placeholder)[i] != '[',
    ensures
        m <= s.len(),
        redact_token(s, prefix, placeholder).take(m) == s.take(m),
    decreases s.len(),
{
    let r = redact_token(s, prefix, placeholder);
    if prefix.len() == 0 || s.len() < prefix.len() {
    } else if s.take(prefix.len() as int) == prefix {
        if m > 0 {
            assert(r[0] == placeholder[0]);
        }
        assert(r.take(0) =~= s.take(0));
    } else if m > 0 {
        let t = s.drop_first();
        let r2 = redact_token(t, prefix, placeholder);
        assert(r =~= seq![s[0]] + r2);
        assert forall|i: int| 0 <= i < m - 1 implies r2[i] != '[' by {
            assert(r[i + 1] == r2[i]);
        }
        lemma_token_keeps_start(t, prefix, placeholder, m - 1);
        assert(r.take(m) =~= seq![s[0]] + r2.take(m - 1));
        assert(s.take(m) =~= seq![s[0]] + t.take(m - 1));
    } else {
        assert(r.take(0) =~= s.take(0));
    }
}

/// Token redaction for `prefix` leaves no occurrence of a bracket-free pattern that the
/// placeholder does not hold, when that pattern is the prefix itself or did not occur.
proof fn lemma_token_pass_absent(s: Seq<char>, prefix: Seq<char>, placeholder: Seq<char>, pat: Seq<char>)
    requires
        pat.len() > 0,
        !pat.contains('['),
        !pat.contains(']'),
        prefix.len() > 0,
        placeholder.len() > 0,
        placeholder[0] == '[',
        placeholder.last() == ']',
        !occurs(placeholder, pat),
        pat == prefix || !occurs(s, pat),
    ensures
        !occurs(redact_token(s, prefix, placeholder), pat),
    decreases s.len(),
{
    let r = redact_token(s, prefix, placeholder);
    if s.len() < prefix.len() {
        if pat == prefix && occurs(r, pat) {
            let i = choose|i: int| 0 <= i && i + pat.len() <= r.len() && #[trigger] r.subrange(i, i + pat.len()) == pat;
        }
    } else if s.take(prefix.len() as int) == prefix {
        let rest = s.skip(prefix.len() as int);
        lemma_after_token_shorter(rest);
        let t = after_token(rest);
        assert(t == s.skip(s.len() - t.len()));
        if pat != prefix {
            lemma_suffix_absent(s, pat, s.len() - t.len());
        }
        lemma_token_pass_absent(t, prefix, placeholder, pat);
        lemma_concat_absent(placeholder, redact_token(t, prefix, placeholder), pat);
    } else {
        let t = s.drop_first();
        if pat != prefix {
            lemma_suffix_absent(s, pat, 1);
            assert(s.skip(1) =~= t);
        }
        lemma_token_pass_absent(t, prefix, placeholder, pat);
        let r2 = redact_token(t, prefix, placeholder);
        assert(r =~= seq![s[0]] + r2);
        if occurs(r, pat) {
            let i = choose|i: int| 0 <= i && i + pat.len() <= r.len() && #[trigger] r.subrange(i, i + pat.len()) == pat;
            if i > 0 {
                assert(r2.subrange(i - 1, (i - 1) + pat.len()) =~= r.subrange(i, i + pat.len()));
            } else {
                assert forall|k: int| 0 <= k < pat.len() implies r[k] != '[' by {
                    assert(r.subrange(i, i + pat.len())[k] == r[k]);
                }
                lemma_token_keeps_start(s, prefix, placeholder, pat.len() as int);
                assert(r.take(pat.len() as int) =~= r.subrange(i, i + pat.len()));
                assert(s.subrange(i, i + pat.len()) =~= s.take(pat.len() as int));
            }
        }
    }
}

/// The credential prefixes the token pass redacts.
pub open spec fn credential_prefixes() -> Seq<Seq<char>> {
    seq!["Bearer "@, "sk-"@, "ghp_"@, "xoxb-"@, "AKIA"@]
}

/// A credential prefix is free of brackets, and no placeholder holds it.
proof fn lemma_prefix_facts(k: int)
    requires
        0 <= k < 5,
    ensures
        credential_prefixes()[k].len() > 0,
        !credential_prefixes()[k].contains('['),
        !credential_prefixes()[k].contains(']'),
        !occurs("[REDACTED:secret]"@, credential_prefixes()[k]),
        !occurs("[REDACTED:email]"@, credential_prefixes()[k]),
        k == 0 ==> !occurs("[REDACTED:bearer]"@, credential_prefixes()[k]),
{
    reveal_strlit("Bearer ");
    reveal_strlit("sk-");
    reveal_strlit("ghp_");
    reveal_strlit("xoxb-");
    reveal_strlit("AKIA");
    reveal_strlit("[REDACTED:secret]");
    reveal_strlit("[REDACTED:email]");
    reveal_strlit("[REDACTED:bearer]");
    let p = credential_prefixes()[k];
    let sec = "[REDACTED:secret]"@;
    let em = "[REDACTED:email]"@;
    let bear = "[REDACTED:bearer]"@;
    let j: int = if k == 0 {
        6
    } else if k == 1 || k == 4 {
        1
    } else {
        0
    };
    assert(p[j] == ' ' || p[j] == 'k' || p[j] == 'g' || p[j] == 'x' || p[j] == 'K');
    assert forall|i: int| 0 <= i < sec.len() implies sec[i] != p[j] by {}
    assert forall|i: int| 0 <= i < em.len() implies em[i] != p[j] by {}
    lemma_absent_char(sec, p, j);
    lemma_absent_char(em, p, j);
    if k == 0 {
        assert forall|i: int| 0 <= i < bear.len() implies bear[i] != p[j] by {}
        lemma_absent_char(bear, p, j);
    }
    assert forall|i: int| 0 <= i < p.len() implies p[i] != '[' && p[i] != ']' by {}
}

/// The token pass leaves no credential prefix behind, whatever the text.
pub proof fn law_token_pass_leaves_no_credential_prefix(s: Seq<char>, k: int)
    requires
        0 <= k < 5,
    ensures
        !occurs(redact_tokens(s), credential_prefixes()[k]),
{
    lemma_prefix_facts(k);
    reveal_strlit("Bearer ");
    reveal_strlit("sk-");
    reveal_strlit("ghp_");
    reveal_strlit("xoxb-");
    reveal_strlit("AKIA");
    reveal_strlit("[REDACTED:secret]");
    reveal_strlit("[REDACTED:bearer]");
    let p = credential_prefixes()[k];
    let sec = "[REDACTED:secret]"@;
    let bear = "[REDACTED:bearer]"@;
    let s1 = redact_token(s, "Bearer "@, bear);
    let s2 = redact_token(s1, "sk-"@, sec);
    let s3 = redact_token(s2, "ghp_"@, sec);
    let s4 = redact_token(s3, "xoxb-"@, sec);
    if k == 0 {
        lemma_token_pass_absent(s, "Bearer "@, bear, p);
    }
    if k <= 1 {
        lemma_token_pass_absent(s1, "sk-"@, sec, p);
    }
    if k <= 2 {
        lemma_token_pass_absent(s2, "ghp_"@, sec, p);
    }
    if k <= 3 {
        lemma_token_pass_absent(s3, "xoxb-"@, sec, p);
    }
    lemma_token_pass_absent(s4, "AKIA"@, sec, p);
}

/// What `drop_bytes` keeps is a prefix of what it was given.
proof fn lemma_drop_bytes_prefix(out: Seq<char>, n: int)
    ensures
        drop_bytes(out, n) matches Some(kept) ==> kept.len() <= out.len() && kept == out.take(kept.len() as int),
    decreases out.len(),
{
    if n < 0 {
    } else if n == 0 || out.len() == 0 {
        assert(out.take(out.len() as int) =~= out);
    } else {
        lemma_drop_bytes_prefix(out.drop_last(), n - utf8_len(out.last()));
        if let Some(kept) = drop_bytes(out.drop_last(), n - utf8_len(out.last())) {
            assert(out.drop_last().take(kept.len() as int) =~= out.take(kept.len() as int));
        }
    }
}

/// The email pass creates no occurrence of a bracket-free pattern that the email
/// placeholder does not hold: what it writes after the last placeholder is a stretch of
/// the text it reads, and a placeholder cannot be part of an occurrence.
proof fn lemma_email_pass_absent(s: Seq<char>, i: int, out: Seq<char>, tl: int, pat: Seq<char>)
    requires
        pat.len() > 0,
        !pat.contains('['),
        !pat.contains(']'),
        !occurs("[REDACTED:email]"@, pat),
        !occurs(s, pat),
        !occurs(out, pat),
        0 <= tl <= out.len(),
        tl <= i <= s.len(),
        out.skip(out.len() - tl) == s.subrange(i - tl, i),
        tl == out.len() || out[out.len() - tl - 1] == ']',
    ensures
        emails_from(s, i, out) matches Some(res) ==> !occurs(res, pat),
    decreases s.len() - i,
{
    reveal_strlit("[REDACTED:email]");
    let em = "[REDACTED:email]"@;
    if i >= s.len() {
    } else {
        let start = email_start(s, i);
        let end = email_end(s, i + 1);
        if s[i] == '@' && i > 0 && start < i && end > i + 1 && s[i + 1] != '.' {
            lemma_email_end_after(s, i + 1);
            lemma_drop_bytes_prefix(out, i - start);
            if let Some(kept) = drop_bytes(out, i - start) {
                lemma_prefix_absent(out, pat, kept.len() as int);
                assert(em[0] == '[');
                lemma_concat_absent(kept, em, pat);
                let out2 = kept + em;
                assert(out2[out2.len() - 0 - 1] == ']');
                assert(out2.skip(out2.len() - 0) =~= s.subrange(end - 0, end));
                lemma_email_pass_absent(s, end, out2, 0, pat);
            }
        } else {
            let out2 = out.push(s[i]);
            let b = out.len() - tl;
            assert(out2.skip(b) =~= s.subrange(i - tl, i + 1)) by {
                assert forall|k: int| 0 <= k < tl implies out2.skip(b)[k] == s.subrange(i - tl, i + 1)[k] by {
                    assert(out.skip(b)[k] == s.subrange(i - tl, i)[k]);
                }
            }
            if occurs(out2, pat) {
                let j = choose|j: int| 0 <= j && j + pat.len() <= out2.len() && #[trigger] out2.subrange(j, j + pat.len()) == pat;
                let w = out2.subrange(j, j + pat.len());
                if j + pat.len() <= out.len() {
                    assert(out.subrange(j, j + pat.len()) =~= w);
                } else if j < b {
                    assert(out2[b - 1] == ']');
                    assert(w[b - 1 - j] == out2[b - 1]);
                    assert(pat[b - 1 - j] == ']');
                } else {
                    let q = i - tl + (j - b);
                    assert(s.subrange(q, q + pat.len()) =~= w) by {
                        assert forall|k: int| 0 <= k < pat.len() implies s.subrange(q, q + pat.len())[k] == w[k] by {
                            assert(w[k] == out2[j + k]);
                            assert(out2[j + k] == out2.skip(b)[j + k - b]);
                            assert(s.subrange(i - tl, i + 1)[j + k - b] == s[q + k]);
                        }
                    }
                }
            }
            let tl2 = tl + 1;
            assert(out2.skip(out2.len() - tl2) =~= out2.skip(b));
            if tl < out.len() {
                assert(out2[out2.len() - tl2 - 1] == out[out.len() - tl - 1]);
            }
            lemma_email_pass_absent(s, i + 1, out2, tl2, pat);
        }
    }
}

/// Redaction leaves no credential prefix in its output, whatever the text and the
/// canaries: every bearer token, secret key, GitHub token, Slack bot token and AWS key
/// id is replaced, and neither the placeholders nor the email pass can put one back.
pub proof fn law_redaction_leaves_no_credential_prefix(input: Seq<char>, canaries: Seq<Seq<char>>, k: int)
    requires
        0 <= k < 5,
    ensures
        redacted(input, canaries) matches Some(out) ==> !occurs(out, credential_prefixes()[k]),
{
    let t = redact_tokens(scrub_canaries(input, canaries));
    law_token_pass_leaves_no_credential_prefix(scrub_canaries(input, canaries), k);
    lemma_prefix_facts(k);
    let e = Seq::<char>::empty();
    assert(!occurs(e, credential_prefixes()[k])) by {
        if occurs(e, credential_prefixes()[k]) {
            let i = choose|i: int| 0 <= i && i + credential_prefixes()[k].len() <= e.len() && #[trigger] e.subrange(
                i,
                i + credential_prefixes()[k].len(),
            ) == credential_prefixes()[k];
        }
    }
    assert(e.skip(0) =~= t.subrange(0, 0));
    lemma_email_pass_absent(t, 0, e, 0, credential_prefixes()[k]);
}

/// The canaries to scrub: the default test canary, and `extra` (the configured one) when
/// it is set, non-empty and different.
pub fn canaries_with(extra: Option<String>) -> (r: Vec<String>)
    ensures
        r@.len() >= 1,
        r@[0]@ == DEFAULT_SECRET_CANARY@,
        match extra {
            Some(x) => if x@.len() > 0 && x@ != DEFAULT_SECRET_CANARY@ {
                r@.len() == 2 && r@[1] == x
            } else {
                r@.len() == 1
            },
            None => r@.len() == 1,
        },
{
    let mut values: Vec<String> = Vec::new();
    values.push(crate::text::owned(DEFAULT_SECRET_CANARY));
    match extra {
        Some(x) => {
            if x.as_str().unicode_len() > 0 && !crate::text::str_eq(x.as_str(), DEFAULT_SECRET_CANARY) {
                values.push(x);
            }
        },
        None => {},
    }
    values
}

/// The redaction of `input` with `canaries` scrubbed, or `None` on the inputs where the
/// email pass would cut inside a character.
pub fn redact_text_checked(input: &str, canaries: &Vec<String>) -> (r: Option<String>)
    ensures
        match r {
            Some(t) => redacted(input@, string_views(canaries@)) == Some(t@),
            None => redacted(input@, string_views(canaries@)) is None,
        },
        r matches Some(t) ==> forall|k: int| 0 <= k < 5 ==> !occurs(t@, #[trigger] credential_prefixes()[k]),
{
    proof {
        assert forall|k: int| 0 <= k < 5 implies (redacted(input@, string_views(canaries@)) matches Some(out) ==> !occurs(
            out,
            #[trigger] credential_prefixes()[k],
        )) by {
            law_redaction_leaves_no_credential_prefix(input@, string_views(canaries@), k);
        }
    }
    let mut chars = chars_of(input);
    let placeholder = chars_of(CANARY_PLACEHOLDER);
    let ghost cv = string_views(canaries@);
    let mut k: usize = 0;
    while k < canaries.len()
        invariant
            k <= canaries@.len(),
            cv == string_views(canaries@),
            placeholder@ == CANARY_PLACEHOLDER@,
            chars@ == scrub_canaries(input@, cv.take(k as int)),
        decreases canaries@.len() - k,
    {
        let canary = chars_of(canaries[k].as_str());
        proof {
            assert(cv.take(k + 1).drop_last() =~= cv.take(k as int));
            assert(cv.take(k + 1).last() == canaries@[k as int]@);
        }
        if canary.len() > 0 {
            chars = replace_chars(&chars, &canary, &placeholder);
        }
        k = k + 1;
    }
    proof {
        assert(cv.take(cv.len() as int) =~= cv);
    }
    let sec = chars_of("[REDACTED:secret]");
    proof {
        reveal_strlit("Bearer ");
        reveal_strlit("sk-");
        reveal_strlit("ghp_");
        reveal_strlit("xoxb-");
        reveal_strlit("AKIA");
    }
    let chars = redact_token_chars(&chars, &chars_of("Bearer "), &chars_of("[REDACTED:bearer]"));
    let chars = redact_token_chars(&chars, &chars_of("sk-"), &sec);
    let chars = redact_token_chars(&chars, &chars_of("ghp_"), &sec);
    let chars = redact_token_chars(&chars, &chars_of("xoxb-"), &sec);
    let chars = redact_token_chars(&chars, &chars_of("AKIA"), &sec);
    match redact_emails(&chars) {
        Some(out) => Some(string_of(&out)),
        None => None,
    }
}

/// Redact credential-shaped values, email addresses and the secret `canaries` from
/// `input`.
pub fn redact_text(input: &str, canaries: &Vec<String>) -> (r: String)
    requires
        redacted(input@, string_views(canaries@)) is Some,
    ensures
        redacted(input@, string_views(canaries@)) == Some(r@),
        forall|k: int| 0 <= k < 5 ==> !occurs(r@, #[trigger] credential_prefixes()[k]),
{
    match redact_text_checked(input, canaries) {
        Some(t) => t,
        None => crate::text::owned(input),
    }
}

} // verus!
