//! The persisted run artifact: filename sanitization, the hyphenated display
//! name, the fixed-width report format, its parser, and the artifact path.
//! The caller captures the timestamp and performs the actual file I/O; every
//! derivation from the run's outputs is verified here.

use vstd::prelude::*;
use crate::strutil::has_prefix;
use crate::strutil::is_space;
use crate::strutil::is_space_char;
use crate::strutil::dec_str;
use crate::strutil::u64_to_dec;

verus! {

/// The characters that may not appear in a filename derived from a title.
pub open spec fn forbidden_char(c: char) -> bool {
    c == '"' || c == ':' || c == ',' || c == '?' || c == '/' || c == '\'' || c == '\n'
}

/// Executable mirror of [`forbidden_char`].
pub fn is_forbidden_char(c: char) -> (r: bool)
    ensures
        r == forbidden_char(c),
{
    c == '"' || c == ':' || c == ',' || c == '?' || c == '/' || c == '\'' || c == '\n'
}

/// The title with every forbidden character removed (stripped, not escaped).
pub open spec fn sanitize_spec(s: Seq<char>) -> Seq<char> {
    s.filter(|c: char| !forbidden_char(c))
}

/// Strips every forbidden character from the title, per [`sanitize_spec`].
/// The result never holds a forbidden character, and is non-empty whenever
/// the title holds at least one character that is not forbidden.
pub fn sanitize_title(title: &str) -> (r: String)
    ensures
        r@ == sanitize_spec(title@),
        forall|i: int| 0 <= i < r@.len() ==> !forbidden_char(r@[i]),
        (exists|i: int| 0 <= i < title@.len() && !forbidden_char(title@[i])) ==> r@.len() > 0,
{
    let n = title.unicode_len();
    let mut out = String::new();
    let mut i: usize = 0;
    while i < n
        invariant
            0 <= i <= n,
            n == title@.len(),
            out@ == title@.take(i as int).filter(|c: char| !forbidden_char(c)),
        decreases n - i,
    {
        let c = title.get_char(i);
        if !is_forbidden_char(c) {
            out.push(c);
        }
        proof {
            assert(title@.take(i + 1) =~= title@.take(i as int).push(title@[i as int]));
            title@.take(i as int).lemma_filter_push(title@[i as int], |c: char| !forbidden_char(c));
        }
        i += 1;
    }
    proof {
        assert(title@.take(n as int) =~= title@);
        let keep = |c: char| !forbidden_char(c);
        assert forall|k: int| 0 <= k < out@.len() implies !forbidden_char(out@[k]) by {
            title@.lemma_filter_pred(keep, k);
        }
        if exists|k: int| 0 <= k < title@.len() && !forbidden_char(title@[k]) {
            let k = choose|k: int| 0 <= k < title@.len() && !forbidden_char(title@[k]);
            title@.lemma_filter_contains(keep, k);
        }
    }
    out
}

/// Joins the title's whitespace-separated words with single hyphens:
/// [`hyph_lead`] before the first word, [`hyph_word`] inside a word,
/// [`hyph_gap`] inside a whitespace run between words.
pub open spec fn hyph_lead(s: Seq<char>) -> Seq<char>
    decreases s.len(),
{
    if s.len() == 0 {
        Seq::empty()
    } else if is_space(s[0]) {
        hyph_lead(s.drop_first())
    } else {
        seq![s[0]] + hyph_word(s.drop_first())
    }
}

/// See [`hyph_lead`].
pub open spec fn hyph_word(s: Seq<char>) -> Seq<char>
    decreases s.len(),
{
    if s.len() == 0 {
        Seq::empty()
    } else if is_space(s[0]) {
        hyph_gap(s.drop_first())
    } else {
        seq![s[0]] + hyph_word(s.drop_first())
    }
}

/// See [`hyph_lead`].
pub open spec fn hyph_gap(s: Seq<char>) -> Seq<char>
    decreases s.len(),
{
    if s.len() == 0 {
        Seq::empty()
    } else if is_space(s[0]) {
        hyph_gap(s.drop_first())
    } else {
        seq!['-', s[0]] + hyph_word(s.drop_first())
    }
}

/// The whitespace-separated words of `s`, joined by single hyphens, with
/// leading and trailing whitespace dropped.
pub open spec fn hyphenate_spec(s: Seq<char>) -> Seq<char> {
    hyph_lead(s)
}

/// Joins the whitespace-separated words of `s` with hyphens, per
/// [`hyphenate_spec`]: the user-facing display name of a poem title.
pub fn hyphenate(s: &str) -> (r: String)
    ensures
        r@ == hyphenate_spec(s@),
{
    let n = s.unicode_len();
    let mut out = String::new();
    let mut i: usize = 0;
    let mut started = false;
    let mut pending_gap = false;
    proof {
        assert(s@.subrange(0, n as int) =~= s@);
    }
    while i < n
        invariant
            0 <= i <= n,
            n == s@.len(),
            !started ==> !pending_gap && out@.len() == 0 && hyphenate_spec(s@) == hyph_lead(
                s@.subrange(i as int, n as int),
            ),
            started && !pending_gap ==> hyphenate_spec(s@) == out@ + hyph_word(
                s@.subrange(i as int, n as int),
            ),
            started && pending_gap ==> hyphenate_spec(s@) == out@ + hyph_gap(
                s@.subrange(i as int, n as int),
            ),
        decreases n - i,
    {
        let c = s.get_char(i);
        proof {
            let suffix = s@.subrange(i as int, n as int);
            assert(suffix[0] == s@[i as int]);
            assert(suffix.drop_first() =~= s@.subrange(i + 1, n as int));
        }
        if is_space_char(c) {
            if started {
                pending_gap = true;
            }
        } else {
            if pending_gap {
                out.push('-');
                out.push(c);
                pending_gap = false;
            } else {
                out.push(c);
            }
            started = true;
        }
        i += 1;
    }
    proof {
        assert(s@.subrange(n as int, n as int) =~= Seq::<char>::empty());
        if started {
            assert(out@ + Seq::<char>::empty() =~= out@);
        }
    }
    out
}

/// The 80-character separator line of the report.
pub open spec fn sep_spec() -> Seq<char> {
    Seq::new(80, |i: int| '-')
}

/// Builds the separator line, per [`sep_spec`].
pub fn sep_line() -> (r: String)
    ensures
        r@ == sep_spec(),
{
    let mut out = String::new();
    let mut i: usize = 0;
    while i < 80
        invariant
            0 <= i <= 80,
            out@ =~= Seq::new(i as nat, |k: int| '-'),
        decreases 80 - i,
    {
        out.push('-');
        proof {
            assert(out@ =~= Seq::new((i + 1) as nat, |k: int| '-'));
        }
        i += 1;
    }
    out
}

/// The separator framed by newlines, as it stands between report sections.
pub open spec fn token_spec() -> Seq<char> {
    seq!['\n'] + sep_spec() + seq!['\n']
}

/// The fixed-width report persisted for a run: title line, separator,
/// labeled input prompt, separator, labeled generated prompt, separator,
/// labeled poem body, separator.
pub open spec fn report_spec(
    title: Seq<char>,
    input_prompt: Seq<char>,
    generated_prompt: Seq<char>,
    poem: Seq<char>,
) -> Seq<char> {
    title + token_spec() + "INPUT PROMPT: "@ + input_prompt + token_spec()
        + "GENERATED PROMPT:\n"@ + generated_prompt + token_spec() + "POEM:"@ + token_spec()
        + poem + seq!['\n'] + sep_spec()
}

/// Formats the report, per [`report_spec`].
pub fn render_report(
    title: &str,
    input_prompt: &str,
    generated_prompt: &str,
    poem: &str,
) -> (r: String)
    ensures
        r@ == report_spec(title@, input_prompt@, generated_prompt@, poem@),
{
    let sep = sep_line();
    let mut out = String::from_str(title);
    out.push('\n');
    out.append(sep.as_str());
    out.push('\n');
    out.append("INPUT PROMPT: ");
    out.append(input_prompt);
    out.push('\n');
    out.append(sep.as_str());
    out.push('\n');
    out.append("GENERATED PROMPT:\n");
    out.append(generated_prompt);
    out.push('\n');
    out.append(sep.as_str());
    out.push('\n');
    out.append("POEM:");
    out.push('\n');
    out.append(sep.as_str());
    out.push('\n');
    out.append(poem);
    out.push('\n');
    out.append(sep.as_str());
    proof {
        assert(out@ =~= report_spec(title@, input_prompt@, generated_prompt@, poem@));
    }
    out
}

/// The artifact path: `./poem/<timestamp>-<sanitized title>.poem.txt`.
pub open spec fn artifact_path_spec(timestamp: u64, sanitized_title: Seq<char>) -> Seq<char> {
    "./poem/"@ + dec_str(timestamp as nat) + "-"@ + sanitized_title + ".poem.txt"@
}

/// Builds the artifact path, per [`artifact_path_spec`]. The caller passes
/// the already sanitized title.
pub fn artifact_path(timestamp: u64, sanitized_title: &str) -> (r: String)
    ensures
        r@ == artifact_path_spec(timestamp, sanitized_title@),
{
    let mut out = String::from_str("./poem/");
    let ts = u64_to_dec(timestamp);
    out.append(ts.as_str());
    out.append("-");
    out.append(sanitized_title);
    out.append(".poem.txt");
    out
}

/// `pat` occurs in `s` at position `i`.
pub open spec fn occurs_at(s: Seq<char>, pat: Seq<char>, i: int) -> bool {
    0 <= i && i + pat.len() <= s.len() && (forall|k: int|
        0 <= k < pat.len() ==> s[i + k] == pat[k])
}

/// `s` holds 80 consecutive dashes somewhere, so a separator line of the
/// report could be mistaken for part of it.
pub open spec fn has_sep_run(s: Seq<char>) -> bool {
    exists|i: int| occurs_at(s, sep_spec(), i)
}

/// The characters of the framed separator: a newline, 80 dashes, a newline.
proof fn lemma_token_chars()
    ensures
        token_spec().len() == 82,
        forall|k: int|
            0 <= k < 82 ==> token_spec()[k] == (if k == 0 || k == 81 {
                '\n'
            } else {
                '-'
            }),
{
    assert forall|k: int| 0 <= k < 82 implies token_spec()[k] == (if k == 0 || k == 81 {
        '\n'
    } else {
        '-'
    }) by {
        if k == 0 {
            assert(token_spec()[0] == seq!['\n'][0]);
        } else if k == 81 {
            assert(token_spec()[81] == seq!['\n'][0]);
        } else {
            assert(token_spec()[k] == sep_spec()[k - 1]);
        }
    }
}

/// In `a + token + b`, the framed separator occurs right after `a`, and
/// nowhere earlier, provided `a` holds no 80-dash run.
proof fn lemma_token_at_boundary(a: Seq<char>, b: Seq<char>)
    requires
        !has_sep_run(a),
    ensures
        occurs_at(a + token_spec() + b, token_spec(), a.len() as int),
        forall|j: int| 0 <= j < a.len() ==> !occurs_at(a + token_spec() + b, token_spec(), j),
{
    lemma_token_chars();
    let s = a + token_spec() + b;
    let tok = token_spec();
    assert forall|k: int| 0 <= k < tok.len() implies s[a.len() + k] == tok[k] by {
        assert(s[a.len() + k] == (a + token_spec())[a.len() + k]);
    }
    assert forall|j: int| 0 <= j < a.len() implies !occurs_at(s, tok, j) by {
        if occurs_at(s, tok, j) {
            if j + 81 <= a.len() {
                // the 80 dashes of the match lie wholly inside `a`
                assert forall|k: int| 0 <= k < 80 implies a[j + 1 + k] == sep_spec()[k] by {
                    assert(s[j + (1 + k)] == tok[1 + k]);
                    assert(s[j + 1 + k] == a[j + 1 + k]);
                }
                assert(occurs_at(a, sep_spec(), j + 1));
                assert(false);
            } else {
                // the newline that follows `a` falls where a dash is required
                let k = a.len() - j;
                assert(1 <= k <= 80);
                assert(s[j + k] == tok[k]);
                assert(tok[k] == '-');
                assert(s[a.len() as int] == tok[0]);
                assert(false);
            }
        }
    }
}

/// Builds the framed separator as a string, per [`token_spec`].
fn token_string() -> (r: String)
    ensures
        r@ == token_spec(),
{
    let mut s = String::from_str("\n");
    let sep = sep_line();
    s.append(sep.as_str());
    s.append("\n");
    proof {
        reveal_strlit("\n");
        assert(s@ =~= token_spec());
    }
    s
}

/// True exactly when the two strings hold the same characters.
fn str_equal(a: &str, b: &str) -> (r: bool)
    ensures
        r == (a@ == b@),
{
    let la = a.unicode_len();
    let lb = b.unicode_len();
    if la != lb {
        proof {
            assert(a@ != b@) by {
                if a@ == b@ {
                    assert(a@.len() == b@.len());
                }
            }
        }
        return false;
    }
    let eq = has_prefix(a, b);
    proof {
        if b@.is_prefix_of(a@) {
            assert(a@ =~= b@);
        } else {
            assert(a@ != b@) by {
                if a@ == b@ {
                    assert(b@ =~= a@.subrange(0, b@.len() as int));
                }
            }
        }
    }
    eq
}

/// Checks whether the framed separator occurs at `i`.
fn token_matches_at(s: &str, i: usize) -> (r: bool)
    requires
        i + 82 <= s@.len(),
    ensures
        r == occurs_at(s@, token_spec(), i as int),
{
    proof {
        lemma_token_chars();
    }
    let n = s.unicode_len();
    let mut k: usize = 0;
    while k < 82
        invariant
            0 <= k <= 82,
            n == s@.len(),
            i + 82 <= s@.len(),
            token_spec().len() == 82,
            forall|t: int|
                0 <= t < 82 ==> token_spec()[t] == (if t == 0 || t == 81 {
                    '\n'
                } else {
                    '-'
                }),
            forall|t: int| 0 <= t < k ==> s@[i + t] == token_spec()[t],
        decreases 82 - k,
    {
        let expected: char = if k == 0 || k == 81 {
            '\n'
        } else {
            '-'
        };
        if s.get_char(i + k) != expected {
            assert(s@[i + k as int] != token_spec()[k as int]);
            return false;
        }
        k += 1;
    }
    true
}

/// Splits `s` at the first occurrence of the framed separator: the text
/// before it, and the text after it.
fn split_at_token<'a>(s: &'a str) -> (r: Option<(String, &'a str)>)
    ensures
        match r {
            Some(parts) => ({
                let i = parts.0@.len() as int;
                &&& occurs_at(s@, token_spec(), i)
                &&& forall|j: int| 0 <= j < i ==> !occurs_at(s@, token_spec(), j)
                &&& parts.0@ == s@.take(i)
                &&& parts.1@ == s@.skip(i + 82)
            }),
            None => forall|j: int| !occurs_at(s@, token_spec(), j),
        },
{
    proof {
        lemma_token_chars();
    }
    let n = s.unicode_len();
    if n < 82 {
        return None;
    }
    let mut i: usize = 0;
    while i <= n - 82
        invariant
            0 <= i,
            i <= n,
            82 <= n,
            n == s@.len(),
            token_spec().len() == 82,
            forall|j: int| 0 <= j < i ==> !occurs_at(s@, token_spec(), j),
        decreases n - i,
    {
        if token_matches_at(s, i) {
            let pre = String::from_str(s.substring_char(0, i));
            let rest = s.substring_char(i + 82, n);
            return Some((pre, rest));
        }
        i += 1;
    }
    proof {
        assert forall|j: int| !occurs_at(s@, token_spec(), j) by {
            if occurs_at(s@, token_spec(), j) {
                assert(0 <= j && j + 82 <= n);
            }
        }
    }
    None
}

/// Strips `p` off the front of `s`, or reports that `p` is not a prefix.
fn strip_prefix_checked<'a>(s: &'a str, p: &str) -> (r: Option<&'a str>)
    ensures
        match r {
            Some(rest) => p@.is_prefix_of(s@) && rest@ == s@.skip(p@.len() as int),
            None => !p@.is_prefix_of(s@),
        },
{
    if has_prefix(s, p) {
        let rest = s.substring_char(p.unicode_len(), s.unicode_len());
        Some(rest)
    } else {
        None
    }
}

/// The parse result reproduces the four fields of the report.
pub open spec fn parsed_ok(
    r: Option<(String, String, String, String)>,
    title: Seq<char>,
    input_prompt: Seq<char>,
    generated_prompt: Seq<char>,
    poem: Seq<char>,
) -> bool {
    match r {
        Some(parts) => parts.0@ == title && parts.1@ == input_prompt && parts.2@
            == generated_prompt && parts.3@ == poem,
        None => false,
    }
}

/// What follows the first separator of a report.
spec fn report_rest1(ip: Seq<char>, g: Seq<char>, p: Seq<char>) -> Seq<char> {
    "INPUT PROMPT: "@ + ip + token_spec() + report_rest2(g, p)
}

/// What follows the second separator of a report.
spec fn report_rest2(g: Seq<char>, p: Seq<char>) -> Seq<char> {
    "GENERATED PROMPT:\n"@ + g + token_spec() + report_rest3(p)
}

/// What follows the third separator of a report.
spec fn report_rest3(p: Seq<char>) -> Seq<char> {
    "POEM:"@ + token_spec() + p + seq!['\n'] + sep_spec()
}

/// How a well-formed report decomposes at each parsing step, when none of
/// its fields holds an 80-dash run.
proof fn lemma_report_decomposition(
    text: Seq<char>,
    t: Seq<char>,
    ip: Seq<char>,
    g: Seq<char>,
    p: Seq<char>,
)
    requires
        !has_sep_run(t),
        !has_sep_run(ip),
        !has_sep_run(g),
        !has_sep_run(p),
        text == report_spec(t, ip, g, p),
    ensures
        occurs_at(text, token_spec(), t.len() as int),
        forall|j: int| 0 <= j < t.len() ==> !occurs_at(text, token_spec(), j),
        text.take(t.len() as int) == t,
        text.skip(t.len() as int + 82) == report_rest1(ip, g, p),
        "INPUT PROMPT: "@.is_prefix_of(report_rest1(ip, g, p)),
        report_rest1(ip, g, p).skip("INPUT PROMPT: "@.len() as int) == ip + token_spec()
            + report_rest2(g, p),
        occurs_at(ip + token_spec() + report_rest2(g, p), token_spec(), ip.len() as int),
        forall|j: int|
            0 <= j < ip.len() ==> !occurs_at(
                ip + token_spec() + report_rest2(g, p),
                token_spec(),
                j,
            ),
        (ip + token_spec() + report_rest2(g, p)).take(ip.len() as int) == ip,
        (ip + token_spec() + report_rest2(g, p)).skip(ip.len() as int + 82) == report_rest2(g, p),
        "GENERATED PROMPT:\n"@.is_prefix_of(report_rest2(g, p)),
        report_rest2(g, p).skip("GENERATED PROMPT:\n"@.len() as int) == g + token_spec()
            + report_rest3(p),
        occurs_at(g + token_spec() + report_rest3(p), token_spec(), g.len() as int),
        forall|j: int|
            0 <= j < g.len() ==> !occurs_at(g + token_spec() + report_rest3(p), token_spec(), j),
        (g + token_spec() + report_rest3(p)).take(g.len() as int) == g,
        (g + token_spec() + report_rest3(p)).skip(g.len() as int + 82) == report_rest3(p),
        "POEM:"@.is_prefix_of(report_rest3(p)),
        token_spec().is_prefix_of(report_rest3(p).skip("POEM:"@.len() as int)),
        report_rest3(p).skip("POEM:"@.len() as int).skip(82) == p + seq!['\n'] + sep_spec(),
        (p + seq!['\n'] + sep_spec()).len() == p.len() + 81,
        (p + seq!['\n'] + sep_spec()).take(p.len() as int) == p,
        (p + seq!['\n'] + sep_spec()).skip(p.len() as int) == seq!['\n'] + sep_spec(),
{
    lemma_token_chars();
    let tok = token_spec();
    let b1 = report_rest1(ip, g, p);
    let s2 = ip + tok + report_rest2(g, p);
    let b2 = report_rest2(g, p);
    let s4 = g + tok + report_rest3(p);
    let b3 = report_rest3(p);
    let s7 = p + seq!['\n'] + sep_spec();

    assert(text =~= t + tok + b1);
    lemma_token_at_boundary(t, b1);
    assert(text.take(t.len() as int) =~= t);
    assert(text.skip(t.len() as int + 82) =~= b1);

    assert("INPUT PROMPT: "@ =~= b1.subrange(0, "INPUT PROMPT: "@.len() as int));
    assert(b1.skip("INPUT PROMPT: "@.len() as int) =~= s2);

    lemma_token_at_boundary(ip, b2);
    assert(s2.take(ip.len() as int) =~= ip);
    assert(s2.skip(ip.len() as int + 82) =~= b2);

    assert("GENERATED PROMPT:\n"@ =~= b2.subrange(0, "GENERATED PROMPT:\n"@.len() as int));
    assert(b2.skip("GENERATED PROMPT:\n"@.len() as int) =~= s4);

    lemma_token_at_boundary(g, b3);
    assert(s4.take(g.len() as int) =~= g);
    assert(s4.skip(g.len() as int + 82) =~= b3);

    assert("POEM:"@ =~= b3.subrange(0, "POEM:"@.len() as int));
    let b4 = b3.skip("POEM:"@.len() as int);
    assert(b4 =~= tok + s7);
    assert(tok =~= b4.subrange(0, tok.len() as int));
    assert(b4.skip(82) =~= s7);

    assert(s7.take(p.len() as int) =~= p);
    assert(s7.skip(p.len() as int) =~= seq!['\n'] + sep_spec());
}

/// Reads a report back into its four fields: title, input prompt, generated
/// prompt, poem text. Writing a report and reading it back reproduces every
/// field verbatim, for any fields free of 80-dash runs — the one shape of
/// content the separators cannot frame.
pub fn parse_report(text: &str) -> (r: Option<(String, String, String, String)>)
    ensures
        forall|t: Seq<char>, ip: Seq<char>, g: Seq<char>, p: Seq<char>|
            (!has_sep_run(t) && !has_sep_run(ip) && !has_sep_run(g) && !has_sep_run(p) && text@
                == #[trigger] report_spec(t, ip, g, p)) ==> parsed_ok(r, t, ip, g, p),
{
    let none_result: Option<(String, String, String, String)> = None;
    let (title, rest1) = match split_at_token(text) {
        Some(x) => x,
        None => {
            proof {
                assert forall|t: Seq<char>, ip: Seq<char>, g: Seq<char>, p: Seq<char>|
                    (!has_sep_run(t) && !has_sep_run(ip) && !has_sep_run(g) && !has_sep_run(p)
                        && text@ == #[trigger] report_spec(t, ip, g, p)) implies parsed_ok(
                    none_result,
                    t,
                    ip,
                    g,
                    p,
                ) by {
                    lemma_report_decomposition(text@, t, ip, g, p);
                }
            }
            return None;
        },
    };
    let rest2 = match strip_prefix_checked(rest1, "INPUT PROMPT: ") {
        Some(x) => x,
        None => {
            proof {
                assert forall|t: Seq<char>, ip: Seq<char>, g: Seq<char>, p: Seq<char>|
                    (!has_sep_run(t) && !has_sep_run(ip) && !has_sep_run(g) && !has_sep_run(p)
                        && text@ == #[trigger] report_spec(t, ip, g, p)) implies parsed_ok(
                    none_result,
                    t,
                    ip,
                    g,
                    p,
                ) by {
                    lemma_report_decomposition(text@, t, ip, g, p);
                    lemma_same_first_occurrence(text@, title@.len() as int, t.len() as int);
                    assert(rest1@ == report_rest1(ip, g, p));
                }
            }
            return None;
        },
    };
    let (input, rest3) = match split_at_token(rest2) {
        Some(x) => x,
        None => {
            proof {
                assert forall|t: Seq<char>, ip: Seq<char>, g: Seq<char>, p: Seq<char>|
                    (!has_sep_run(t) && !has_sep_run(ip) && !has_sep_run(g) && !has_sep_run(p)
                        && text@ == #[trigger] report_spec(t, ip, g, p)) implies parsed_ok(
                    none_result,
                    t,
                    ip,
                    g,
                    p,
                ) by {
                    lemma_report_decomposition(text@, t, ip, g, p);
                    lemma_same_first_occurrence(text@, title@.len() as int, t.len() as int);
                    assert(rest2@ == ip + token_spec() + report_rest2(g, p));
                }
            }
            return None;
        },
    };
    let rest4 = match strip_prefix_checked(rest3, "GENERATED PROMPT:\n") {
        Some(x) => x,
        None => {
            proof {
                assert forall|t: Seq<char>, ip: Seq<char>, g: Seq<char>, p: Seq<char>|
                    (!has_sep_run(t) && !has_sep_run(ip) && !has_sep_run(g) && !has_sep_run(p)
                        && text@ == #[trigger] report_spec(t, ip, g, p)) implies parsed_ok(
                    none_result,
                    t,
                    ip,
                    g,
                    p,
                ) by {
                    lemma_report_decomposition(text@, t, ip, g, p);
                    lemma_same_first_occurrence(text@, title@.len() as int, t.len() as int);
                    assert(rest2@ == ip + token_spec() + report_rest2(g, p));
                    lemma_same_first_occurrence(rest2@, input@.len() as int, ip.len() as int);
                    assert(rest3@ == report_rest2(g, p));
                }
            }
            return None;
        },
    };
    let (gen, rest5) = match split_at_token(rest4) {
        Some(x) => x,
        None => {
            proof {
                assert forall|t: Seq<char>, ip: Seq<char>, g: Seq<char>, p: Seq<char>|
                    (!has_sep_run(t) && !has_sep_run(ip) && !has_sep_run(g) && !has_sep_run(p)
                        && text@ == #[trigger] report_spec(t, ip, g, p)) implies parsed_ok(
                    none_result,
                    t,
                    ip,
                    g,
                    p,
                ) by {
                    lemma_report_decomposition(text@, t, ip, g, p);
                    lemma_same_first_occurrence(text@, title@.len() as int, t.len() as int);
                    assert(rest2@ == ip + token_spec() + report_rest2(g, p));
                    lemma_same_first_occurrence(rest2@, input@.len() as int, ip.len() as int);
                    assert(rest4@ == g + token_spec() + report_rest3(p));
                }
            }
            return None;
        },
    };
    let rest6 = match strip_prefix_checked(rest5, "POEM:") {
        Some(x) => x,
        None => {
            proof {
                assert forall|t: Seq<char>, ip: Seq<char>, g: Seq<char>, p: Seq<char>|
                    (!has_sep_run(t) && !has_sep_run(ip) && !has_sep_run(g) && !has_sep_run(p)
                        && text@ == #[trigger] report_spec(t, ip, g, p)) implies parsed_ok(
                    none_result,
                    t,
                    ip,
                    g,
                    p,
                ) by {
                    lemma_report_decomposition(text@, t, ip, g, p);
                    lemma_same_first_occurrence(text@, title@.len() as int, t.len() as int);
                    assert(rest2@ == ip + token_spec() + report_rest2(g, p));
                    lemma_same_first_occurrence(rest2@, input@.len() as int, ip.len() as int);
                    assert(rest4@ == g + token_spec() + report_rest3(p));
                    lemma_same_first_occurrence(rest4@, gen@.len() as int, g.len() as int);
                    assert(rest5@ == report_rest3(p));
                }
            }
            return None;
        },
    };
    let tok_str = token_string();
    let rest7 = match strip_prefix_checked(rest6, tok_str.as_str()) {
        Some(x) => x,
        None => {
            proof {
                assert forall|t: Seq<char>, ip: Seq<char>, g: Seq<char>, p: Seq<char>|
                    (!has_sep_run(t) && !has_sep_run(ip) && !has_sep_run(g) && !has_sep_run(p)
                        && text@ == #[trigger] report_spec(t, ip, g, p)) implies parsed_ok(
                    none_result,
                    t,
                    ip,
                    g,
                    p,
                ) by {
                    lemma_report_decomposition(text@, t, ip, g, p);
                    lemma_same_first_occurrence(text@, title@.len() as int, t.len() as int);
                    assert(rest2@ == ip + token_spec() + report_rest2(g, p));
                    lemma_same_first_occurrence(rest2@, input@.len() as int, ip.len() as int);
                    assert(rest4@ == g + token_spec() + report_rest3(p));
                    lemma_same_first_occurrence(rest4@, gen@.len() as int, g.len() as int);
                    assert(rest6@ == report_rest3(p).skip("POEM:"@.len() as int));
                }
            }
            return None;
        },
    };
    let n7 = rest7.unicode_len();
    if n7 < 81 {
        proof {
            assert forall|t: Seq<char>, ip: Seq<char>, g: Seq<char>, p: Seq<char>|
                (!has_sep_run(t) && !has_sep_run(ip) && !has_sep_run(g) && !has_sep_run(p) && text@
                    == #[trigger] report_spec(t, ip, g, p)) implies parsed_ok(
                none_result,
                t,
                ip,
                g,
                p,
            ) by {
                lemma_report_decomposition(text@, t, ip, g, p);
                lemma_same_first_occurrence(text@, title@.len() as int, t.len() as int);
                assert(rest2@ == ip + token_spec() + report_rest2(g, p));
                lemma_same_first_occurrence(rest2@, input@.len() as int, ip.len() as int);
                assert(rest4@ == g + token_spec() + report_rest3(p));
                lemma_same_first_occurrence(rest4@, gen@.len() as int, g.len() as int);
                assert(rest6@ == report_rest3(p).skip("POEM:"@.len() as int));
                assert(rest7@ == p + seq!['\n'] + sep_spec());
            }
        }
        return None;
    }
    let poem = rest7.substring_char(0, n7 - 81);
    let tail = rest7.substring_char(n7 - 81, n7);
    let mut expected = String::from_str("\n");
    let sep = sep_line();
    expected.append(sep.as_str());
    proof {
        reveal_strlit("\n");
        assert(expected@ =~= seq!['\n'] + sep_spec());
    }
    if !str_equal(tail, expected.as_str()) {
        proof {
            assert forall|t: Seq<char>, ip: Seq<char>, g: Seq<char>, p: Seq<char>|
                (!has_sep_run(t) && !has_sep_run(ip) && !has_sep_run(g) && !has_sep_run(p) && text@
                    == #[trigger] report_spec(t, ip, g, p)) implies parsed_ok(
                none_result,
                t,
                ip,
                g,
                p,
            ) by {
                lemma_report_decomposition(text@, t, ip, g, p);
                lemma_same_first_occurrence(text@, title@.len() as int, t.len() as int);
                assert(rest2@ == ip + token_spec() + report_rest2(g, p));
                lemma_same_first_occurrence(rest2@, input@.len() as int, ip.len() as int);
                assert(rest4@ == g + token_spec() + report_rest3(p));
                lemma_same_first_occurrence(rest4@, gen@.len() as int, g.len() as int);
                assert(rest6@ == report_rest3(p).skip("POEM:"@.len() as int));
                assert(rest7@ == p + seq!['\n'] + sep_spec());
                assert(tail@ == rest7@.skip(p.len() as int));
            }
        }
        return None;
    }
    let result = Some((title, input, gen, String::from_str(poem)));
    proof {
        assert forall|t: Seq<char>, ip: Seq<char>, g: Seq<char>, p: Seq<char>|
            (!has_sep_run(t) && !has_sep_run(ip) && !has_sep_run(g) && !has_sep_run(p) && text@
                == #[trigger] report_spec(t, ip, g, p)) implies parsed_ok(result, t, ip, g, p) by {
            lemma_report_decomposition(text@, t, ip, g, p);
            lemma_same_first_occurrence(text@, title@.len() as int, t.len() as int);
            assert(title@ == t);
            assert(rest2@ == ip + token_spec() + report_rest2(g, p));
            lemma_same_first_occurrence(rest2@, input@.len() as int, ip.len() as int);
            assert(input@ == ip);
            assert(rest4@ == g + token_spec() + report_rest3(p));
            lemma_same_first_occurrence(rest4@, gen@.len() as int, g.len() as int);
            assert(gen@ == g);
            assert(rest6@ == report_rest3(p).skip("POEM:"@.len() as int));
            assert(rest7@ == p + seq!['\n'] + sep_spec());
            assert(poem@ == rest7@.subrange(0, p.len() as int));
            assert(poem@ == p);
        }
    }
    result
}

/// Two positions that are each a first occurrence of the framed separator in
/// `s` coincide. The caller supplies, for each, the occurrence there and the
/// absence of any earlier one.
proof fn lemma_same_first_occurrence(s: Seq<char>, i: int, j: int)
    requires
        occurs_at(s, token_spec(), i),
        forall|k: int| 0 <= k < i ==> !occurs_at(s, token_spec(), k),
        occurs_at(s, token_spec(), j),
        forall|k: int| 0 <= k < j ==> !occurs_at(s, token_spec(), k),
    ensures
        i == j,
{
    if i < j {
        assert(!occurs_at(s, token_spec(), i));
    }
    if j < i {
        assert(!occurs_at(s, token_spec(), j));
    }
}

/// The final persisted record of a run, created once after all generation
/// completes and never updated afterward. `timestamp` is a Unix epoch second
/// value captured once by the caller.
pub struct RunArtifact {
    pub timestamp: u64,
    pub title: String,
    pub seed_prompt: String,
    pub expanded_prompt: String,
    pub poem_text: String,
    pub image_refs: Option<Vec<String>>,
}

impl RunArtifact {
    /// The file path this artifact is written to.
    pub fn file_path(&self) -> (r: String)
        ensures
            r@ == artifact_path_spec(self.timestamp, sanitize_spec(self.title@)),
    {
        let sanitized = sanitize_title(self.title.as_str());
        artifact_path(self.timestamp, sanitized.as_str())
    }

    /// The report text this artifact is written as.
    pub fn render(&self) -> (r: String)
        ensures
            r@ == report_spec(self.title@, self.seed_prompt@, self.expanded_prompt@, self.poem_text@),
    {
        render_report(
            self.title.as_str(),
            self.seed_prompt.as_str(),
            self.expanded_prompt.as_str(),
            self.poem_text.as_str(),
        )
    }

    /// The hyphen-joined display name shown to the user, derived from the
    /// sanitized title.
    pub fn display_name(&self) -> (r: String)
        ensures
            r@ == hyphenate_spec(sanitize_spec(self.title@)),
    {
        let sanitized = sanitize_title(self.title.as_str());
        hyphenate(sanitized.as_str())
    }
}

} // verus!
