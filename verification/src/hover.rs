//! Hover-content shaping: a pure text utility outside the gateway's
//! protocol duties.
//!
//! [`sanitize_markdown`] escapes markdown control characters so analyzer
//! prose renders literally; its behaviour is pinned exactly by a
//! composition of leftmost-first replacements. [`format_hover_data`]
//! splits raw hover text into a title, a probable signature, source code
//! and documentation; its shaping is heuristic presentation logic, and
//! its contract pins what callers rely on: emptiness is rejected, and
//! the raw text is always carried through unchanged.

use vstd::prelude::*;
use crate::strutil::{to_char_vec, from_chars};

verus! {

/// `s` with every leftmost occurrence of `pat` replaced by `rep`,
/// scanning left to right without overlap.
pub open spec fn spec_replace(s: Seq<char>, pat: Seq<char>, rep: Seq<char>) -> Seq<char>
    decreases s.len(),
{
    if pat.len() == 0 || s.len() < pat.len() {
        s
    } else if s.take(pat.len() as int) == pat {
        rep + spec_replace(s.skip(pat.len() as int), pat, rep)
    } else {
        seq![s[0]] + spec_replace(s.drop_first(), pat, rep)
    }
}

/// A lone `*` becomes `\*`; a `**` pair is left as it stands.
pub open spec fn spec_escape_stars(s: Seq<char>) -> Seq<char>
    decreases s.len(),
{
    if s.len() == 0 {
        s
    } else if s[0] == '*' {
        if s.len() > 1 && s[1] == '*' {
            seq!['*', '*'] + spec_escape_stars(s.skip(2))
        } else {
            seq!['\\', '*'] + spec_escape_stars(s.skip(1))
        }
    } else {
        seq![s[0]] + spec_escape_stars(s.drop_first())
    }
}

/// The whole sanitizing pipeline: stars escaped, underscores and heading
/// marks escaped, double escapes collapsed.
pub open spec fn spec_sanitize(s: Seq<char>) -> Seq<char> {
    let a = spec_escape_stars(s);
    let b = spec_replace(a, seq!['_'], seq!['\\', '_']);
    let c = spec_replace(b, seq!['#', '#'], seq!['\\', '#', '#']);
    let d = spec_replace(c, seq!['#', '#', '#'], seq!['\\', '#', '#', '#']);
    let e = spec_replace(d, seq!['\\', '\\', '*'], seq!['\\', '*']);
    let f = spec_replace(e, seq!['\\', '\\', '_'], seq!['\\', '_']);
    spec_replace(f, seq!['\\', '\\', '#'], seq!['\\', '#'])
}

/// Whether `pat` occurs at position `i` of `s`.
fn matches_at(s: &Vec<char>, i: usize, pat: &Vec<char>) -> (r: bool)
    requires
        i + pat@.len() <= s@.len(),
    ensures
        r == (s@.skip(i as int).take(pat@.len() as int) == pat@),
{
    let n = pat.len();
    let slen = s.len();
    let mut j: usize = 0;
    while j < n
        invariant
            n == pat@.len(),
            slen == s@.len(),
            i + n <= slen,
            j <= n,
            forall|k: int| 0 <= k < j ==> s@[i + k] == pat@[k],
        decreases n - j,
    {
        if s[i + j] != pat[j] {
            proof {
                assert(s@.skip(i as int).take(n as int)[j as int] == s@[i + j]);
            }
            return false;
        }
        j += 1;
    }
    proof {
        assert(s@.skip(i as int).take(n as int) =~= pat@);
    }
    true
}

/// Replaces every leftmost occurrence of `pat` in `s` by `rep`.
fn replace_chars(s: &Vec<char>, pat: &Vec<char>, rep: &Vec<char>) -> (r: Vec<char>)
    requires
        pat@.len() >= 1,
    ensures
        r@ == spec_replace(s@, pat@, rep@),
{
    let mut out: Vec<char> = Vec::new();
    let mut i: usize = 0;
    proof {
        assert(s@.skip(0) =~= s@);
        assert(out@ + spec_replace(s@.skip(0), pat@, rep@) =~= spec_replace(s@, pat@, rep@));
    }
    while i < s.len()
        invariant
            pat@.len() >= 1,
            i <= s@.len(),
            out@ + spec_replace(s@.skip(i as int), pat@, rep@) =~= spec_replace(
                s@,
                pat@,
                rep@,
            ),
        decreases s@.len() - i,
    {
        let ghost rem = s@.skip(i as int);
        if pat.len() <= s.len() - i && matches_at(s, i, pat) {
            let ghost out0 = out@;
            let mut k: usize = 0;
            while k < rep.len()
                invariant
                    k <= rep@.len(),
                    out@ =~= out0 + rep@.take(k as int),
                decreases rep@.len() - k,
            {
                out.push(rep[k]);
                proof {
                    assert(out@ =~= out0 + rep@.take(k + 1));
                }
                k += 1;
            }
            proof {
                assert(rep@.take(rep@.len() as int) =~= rep@);
                assert(rem.len() >= pat@.len());
                assert(rem.take(pat@.len() as int) == pat@);
                assert(spec_replace(rem, pat@, rep@) == rep@ + spec_replace(
                    rem.skip(pat@.len() as int),
                    pat@,
                    rep@,
                ));
                assert(rem.skip(pat@.len() as int) =~= s@.skip(i + pat@.len()));
                assert(out@ + spec_replace(s@.skip(i + pat@.len() as int), pat@, rep@)
                    =~= spec_replace(s@, pat@, rep@));
            }
            i = i + pat.len();
        } else {
            let ghost out0 = out@;
            out.push(s[i]);
            proof {
                assert(rem[0] == s@[i as int]);
                if rem.len() < pat@.len() {
                    assert(spec_replace(rem, pat@, rep@) == rem);
                    assert(rem =~= seq![rem[0]] + rem.drop_first());
                    assert(rem.drop_first() =~= s@.skip(i + 1));
                    if rem.drop_first().len() < pat@.len() {
                        assert(spec_replace(rem.drop_first(), pat@, rep@) == rem.drop_first());
                    }
                } else {
                    assert(!(rem.take(pat@.len() as int) == pat@));
                    assert(spec_replace(rem, pat@, rep@) == seq![rem[0]] + spec_replace(
                        rem.drop_first(),
                        pat@,
                        rep@,
                    ));
                }
                assert(rem.drop_first() =~= s@.skip(i + 1));
                assert(out@ + spec_replace(s@.skip(i + 1), pat@, rep@) =~= spec_replace(
                    s@,
                    pat@,
                    rep@,
                ));
            }
            i += 1;
        }
    }
    proof {
        assert(s@.skip(i as int) =~= Seq::<char>::empty());
        assert(spec_replace(Seq::<char>::empty(), pat@, rep@)
            =~= Seq::<char>::empty());
        assert(out@ =~= spec_replace(s@, pat@, rep@));
    }
    out
}

/// Escapes lone stars, leaving `**` pairs alone.
fn escape_stars(s: &Vec<char>) -> (r: Vec<char>)
    ensures
        r@ == spec_escape_stars(s@),
{
    let mut out: Vec<char> = Vec::new();
    let mut i: usize = 0;
    proof {
        assert(s@.skip(0) =~= s@);
        assert(out@ + spec_escape_stars(s@.skip(0)) =~= spec_escape_stars(s@));
    }
    while i < s.len()
        invariant
            i <= s@.len(),
            out@ + spec_escape_stars(s@.skip(i as int)) =~= spec_escape_stars(s@),
        decreases s@.len() - i,
    {
        let ghost rem = s@.skip(i as int);
        proof {
            assert(rem[0] == s@[i as int]);
            if rem.len() > 1 {
                assert(rem[1] == s@[i + 1]);
            }
        }
        if s[i] == '*' {
            if i + 1 < s.len() && s[i + 1] == '*' {
                out.push('*');
                out.push('*');
                proof {
                    assert(rem.skip(2) =~= s@.skip(i + 2));
                    assert(out@ + spec_escape_stars(s@.skip(i + 2)) =~= spec_escape_stars(s@));
                }
                i += 2;
            } else {
                out.push('\\');
                out.push('*');
                proof {
                    assert(rem.skip(1) =~= s@.skip(i + 1));
                    assert(out@ + spec_escape_stars(s@.skip(i + 1)) =~= spec_escape_stars(s@));
                }
                i += 1;
            }
        } else {
            out.push(s[i]);
            proof {
                assert(rem.drop_first() =~= s@.skip(i + 1));
                assert(out@ + spec_escape_stars(s@.skip(i + 1)) =~= spec_escape_stars(s@));
            }
            i += 1;
        }
    }
    proof {
        assert(s@.skip(i as int) =~= Seq::<char>::empty());
        assert(out@ =~= spec_escape_stars(s@));
    }
    out
}

/// Escapes markdown control characters in analyzer prose: lone stars,
/// underscores and heading marks, collapsing doubled escapes, with text
/// between backticks carried through like everything else.
pub fn sanitize_markdown(text: &str) -> (r: String)
    ensures
        r@ == spec_sanitize(text@),
{
    let cs = to_char_vec(text);
    let a = escape_stars(&cs);
    let mut pat: Vec<char> = Vec::new();
    let mut rep: Vec<char> = Vec::new();
    pat.push('_');
    rep.push('\\');
    rep.push('_');
    let b = replace_chars(&a, &pat, &rep);
    let mut pat2: Vec<char> = Vec::new();
    let mut rep2: Vec<char> = Vec::new();
    pat2.push('#');
    pat2.push('#');
    rep2.push('\\');
    rep2.push('#');
    rep2.push('#');
    let c = replace_chars(&b, &pat2, &rep2);
    let mut pat3: Vec<char> = Vec::new();
    let mut rep3: Vec<char> = Vec::new();
    pat3.push('#');
    pat3.push('#');
    pat3.push('#');
    rep3.push('\\');
    rep3.push('#');
    rep3.push('#');
    rep3.push('#');
    let d = replace_chars(&c, &pat3, &rep3);
    let mut pat4: Vec<char> = Vec::new();
    let mut rep4: Vec<char> = Vec::new();
    pat4.push('\\');
    pat4.push('\\');
    pat4.push('*');
    rep4.push('\\');
    rep4.push('*');
    let e = replace_chars(&d, &pat4, &rep4);
    let mut pat5: Vec<char> = Vec::new();
    let mut rep5: Vec<char> = Vec::new();
    pat5.push('\\');
    pat5.push('\\');
    pat5.push('_');
    rep5.push('\\');
    rep5.push('_');
    let f = replace_chars(&e, &pat5, &rep5);
    let mut pat6: Vec<char> = Vec::new();
    let mut rep6: Vec<char> = Vec::new();
    pat6.push('\\');
    pat6.push('\\');
    pat6.push('#');
    rep6.push('\\');
    rep6.push('#');
    let g = replace_chars(&f, &pat6, &rep6);
    proof {
        assert(pat@ =~= seq!['_']);
        assert(rep@ =~= seq!['\\', '_']);
        assert(pat2@ =~= seq!['#', '#']);
        assert(rep2@ =~= seq!['\\', '#', '#']);
        assert(pat3@ =~= seq!['#', '#', '#']);
        assert(rep3@ =~= seq!['\\', '#', '#', '#']);
        assert(pat4@ =~= seq!['\\', '\\', '*']);
        assert(rep4@ =~= seq!['\\', '*']);
        assert(pat5@ =~= seq!['\\', '\\', '_']);
        assert(rep5@ =~= seq!['\\', '_']);
        assert(pat6@ =~= seq!['\\', '\\', '#']);
        assert(rep6@ =~= seq!['\\', '#']);
    }
    from_chars(&g)
}

/// Hover text split into presentation parts; `raw` always carries the
/// input unchanged.
#[derive(Debug, PartialEq)]
pub struct FormattedHoverData {
    pub title: String,
    pub signature: Option<String>,
    pub documentation: Option<String>,
    pub source_code: Option<String>,
    pub raw: String,
}

/// Whether `pat` occurs anywhere in `s`.
pub open spec fn spec_contains(s: Seq<char>, pat: Seq<char>) -> bool {
    exists|i: int| 0 <= i <= s.len() - pat.len() && s.skip(i).take(pat.len() as int) == pat
}

pub(crate) fn contains_sub(s: &Vec<char>, pat: &Vec<char>) -> (r: bool)
    ensures
        r == spec_contains(s@, pat@),
{
    let n = s.len();
    let m = pat.len();
    if m == 0 {
        proof {
            assert(s@.skip(0).take(0) =~= pat@);
        }
        return true;
    }
    if m > n {
        proof {
            assert(!spec_contains(s@, pat@));
        }
        return false;
    }
    let mut i: usize = 0;
    while i <= n - m
        invariant
            n == s@.len(),
            m == pat@.len(),
            1 <= m <= n,
            i <= n - m + 1,
            forall|j: int|
                0 <= j < i ==> #[trigger] s@.skip(j).take(m as int) != pat@,
        decreases n - i,
    {
        if matches_at(s, i, pat) {
            return true;
        }
        i += 1;
    }
    proof {
        assert(!spec_contains(s@, pat@));
    }
    false
}

fn chars_of(lit: &str) -> (r: Vec<char>)
    ensures
        r@ == lit@,
{
    to_char_vec(lit)
}

fn char_slice_eq(a: &Vec<char>, lit: &str) -> (r: bool)
    ensures
        r == (a@ == lit@),
{
    let s = from_chars(a);
    crate::strutil::str_eq(s.as_str(), lit)
}

/// The chars with leading and trailing blanks (space, tab, carriage
/// return) removed.
fn trim_chars(s: &Vec<char>) -> Vec<char> {
    let mut lo: usize = 0;
    let n = s.len();
    while lo < n && (s[lo] == ' ' || s[lo] == '\t' || s[lo] == '\r')
        invariant
            n == s@.len(),
            lo <= n,
        decreases n - lo,
    {
        lo += 1;
    }
    let mut hi: usize = n;
    while hi > lo && (s[hi - 1] == ' ' || s[hi - 1] == '\t' || s[hi - 1] == '\r')
        invariant
            n == s@.len(),
            lo <= hi <= n,
        decreases hi,
    {
        hi -= 1;
    }
    let mut out: Vec<char> = Vec::new();
    let mut i: usize = lo;
    while i < hi
        invariant
            hi <= s@.len(),
            i <= hi,
        decreases hi - i,
    {
        out.push(s[i]);
        i += 1;
    }
    out
}

/// The text split at every newline, with any carriage return at a line's
/// end removed; a trailing newline produces no empty final line.
fn split_lines(s: &Vec<char>) -> Vec<Vec<char>> {
    let mut lines: Vec<Vec<char>> = Vec::new();
    let mut cur: Vec<char> = Vec::new();
    let n = s.len();
    let mut i: usize = 0;
    while i < n
        invariant
            n == s@.len(),
            i <= n,
        decreases n - i,
    {
        if s[i] == '\n' {
            if cur.len() > 0 && cur[cur.len() - 1] == '\r' {
                let _ = cur.pop();
            }
            lines.push(cur);
            cur = Vec::new();
        } else {
            cur.push(s[i]);
        }
        i += 1;
    }
    if cur.len() > 0 {
        if cur[cur.len() - 1] == '\r' {
            let _ = cur.pop();
        }
        lines.push(cur);
    }
    lines
}

/// The text split at every occurrence of `pat`, empties included.
fn split_all(s: &Vec<char>, pat: &Vec<char>) -> Vec<Vec<char>> {
    let mut parts: Vec<Vec<char>> = Vec::new();
    let mut cur: Vec<char> = Vec::new();
    let n = s.len();
    let m = pat.len();
    let mut i: usize = 0;
    if m == 0 {
        parts.push(cur);
        return parts;
    }
    while i < n
        invariant
            n == s@.len(),
            m == pat@.len(),
            m >= 1,
            i <= n,
        decreases n - i,
    {
        if m <= n - i && matches_at(s, i, pat) {
            parts.push(cur);
            cur = Vec::new();
            i = i + m;
        } else {
            cur.push(s[i]);
            i += 1;
        }
    }
    parts.push(cur);
    parts
}

/// The text split at blanks, empties dropped.
fn split_blank(s: &Vec<char>) -> Vec<Vec<char>> {
    let mut parts: Vec<Vec<char>> = Vec::new();
    let mut cur: Vec<char> = Vec::new();
    let n = s.len();
    let mut i: usize = 0;
    while i < n
        invariant
            n == s@.len(),
            i <= n,
        decreases n - i,
    {
        let c = s[i];
        if c == ' ' || c == '\t' {
            if cur.len() > 0 {
                parts.push(cur);
                cur = Vec::new();
            }
        } else {
            cur.push(c);
        }
        i += 1;
    }
    if cur.len() > 0 {
        parts.push(cur);
    }
    parts
}

/// The parts from `from` on, joined with one space.
fn join_from(parts: &Vec<Vec<char>>, from: usize, sep: char) -> Vec<char> {
    let mut out: Vec<char> = Vec::new();
    let mut i: usize = from;
    if i > parts.len() {
        i = parts.len();
    }
    while i < parts.len()
        invariant
            i <= parts.len(),
        decreases parts.len() - i,
    {
        if out.len() > 0 {
            out.push(sep);
        }
        let part = &parts[i];
        let mut j: usize = 0;
        while j < part.len()
            invariant
                j <= part.len(),
            decreases part.len() - j,
        {
            out.push(part[j]);
            j += 1;
        }
        i += 1;
    }
    out
}

fn is_code_fence_language(line: &Vec<char>) -> bool {
    char_slice_eq(line, "rust") || char_slice_eq(line, "ts") || char_slice_eq(line, "js")
        || char_slice_eq(line, "typescript") || char_slice_eq(line, "javascript")
}

/// Splits raw hover text into a title, a probable signature, source code
/// and documentation. Empty input is rejected; everything else succeeds,
/// and the raw member always carries the input unchanged. The shaping
/// itself — code-fence handling, signature guessing, title shortening —
/// is heuristic presentation logic.
pub fn format_hover_data(contents: &str) -> (r: Result<FormattedHoverData, String>)
    ensures
        r is Err <==> contents@.len() == 0,
        r matches Ok(d) ==> d.raw@ == contents@,
{
    let cs = to_char_vec(contents);
    if cs.len() == 0 {
        return Err("Empty hover contents".to_owned());
    }
    let fence = chars_of("```");
    let lines = split_lines(&cs);
    let mut title: Vec<char> = chars_of("Unknown");
    let mut signature: Option<Vec<char>> = None;
    let mut documentation: Option<Vec<char>> = None;
    let mut source_code: Option<Vec<char>> = None;
    if lines.len() > 0 {
        title = trim_chars(&lines[0]);
        if contains_sub(&title, &fence) {
            let parts = split_all(&title, &fence);
            if parts.len() > 1 {
                title = trim_chars(&parts[1]);
                let lang_parts = split_blank(&title);
                if lang_parts.len() > 0 && is_code_fence_language(&lang_parts[0]) {
                    title = join_from(&lang_parts, 1, ' ');
                }
            }
        }
        let mut in_code_block = false;
        let mut code_lines: Vec<Vec<char>> = Vec::new();
        let mut doc_lines: Vec<Vec<char>> = Vec::new();
        let mut possible_signature_found = false;
        let fn_pat = chars_of("fn ");
        let pub_fn_pat = chars_of("pub fn ");
        let function_pat = chars_of("function");
        let open_paren = chars_of("(");
        let close_paren = chars_of(")");
        let arrow_pat = chars_of("->");
        let mut li: usize = 1;
        while li < lines.len()
            decreases lines.len() - li,
        {
            let line_str = trim_chars(&lines[li]);
            let starts_fence = if line_str.len() >= fence.len() {
                matches_at(&line_str, 0, &fence)
            } else {
                false
            };
            if starts_fence {
                in_code_block = !in_code_block;
                li += 1;
                continue ;
            }
            if in_code_block {
                if code_lines.len() == 0 && is_code_fence_language(&line_str) {
                    li += 1;
                    continue ;
                }
                code_lines.push(line_str);
            } else if line_str.len() > 0 {
                let has_fn = contains_sub(&line_str, &fn_pat);
                let has_pub_fn = contains_sub(&line_str, &pub_fn_pat);
                let has_function = contains_sub(&line_str, &function_pat);
                let has_open = contains_sub(&line_str, &open_paren);
                let has_close = contains_sub(&line_str, &close_paren);
                let has_arrow = contains_sub(&line_str, &arrow_pat);
                let mut consumed = false;
                if !possible_signature_found && (has_fn || has_pub_fn || has_function || (
                has_open && has_close)) {
                    let is_likely_signature = has_arrow || (has_open && has_close && (has_fn
                        || has_function));
                    if is_likely_signature && signature.is_none() {
                        signature = Some(clone_chars(&line_str));
                        possible_signature_found = true;
                        consumed = true;
                    }
                }
                if !consumed {
                    let s = from_chars(&line_str);
                    let sanitized = sanitize_markdown(s.as_str());
                    doc_lines.push(to_char_vec(sanitized.as_str()));
                }
            }
            li += 1;
        }
        if code_lines.len() > 0 {
            if signature.is_none() {
                signature = Some(clone_chars(&code_lines[0]));
            }
            if code_lines.len() > 1 {
                source_code = Some(join_lines(&code_lines));
            } else if possible_signature_found {
                source_code = Some(clone_chars(&code_lines[0]));
            }
        }
        if doc_lines.len() > 0 {
            documentation = Some(join_lines(&doc_lines));
        }
    }
    if title.len() > 100 {
        let words = split_title_words(&title);
        let short = join_limited(&words, 3);
        if short.len() > 0 {
            let mut t = short;
            t.push('.');
            t.push('.');
            t.push('.');
            title = t;
        }
    }
    let title_s = from_chars(&title);
    let title_sanitized = sanitize_markdown(title_s.as_str());
    let mut title = to_char_vec(title_sanitized.as_str());
    if char_slice_eq(&title, "Unknown") {
        match &signature {
            Some(sig) => {
                let fn_pat = chars_of("fn ");
                let struct_pat = chars_of("struct ");
                if contains_sub(sig, &fn_pat) {
                    let parts = split_all(sig, &fn_pat);
                    if parts.len() > 1 {
                        let paren = chars_of("(");
                        let name_parts = split_all(&parts[1], &paren);
                        if name_parts.len() > 0 {
                            title = trim_chars(&name_parts[0]);
                        }
                    }
                } else if contains_sub(sig, &struct_pat) {
                    let parts = split_all(sig, &struct_pat);
                    if parts.len() > 1 {
                        title = first_struct_name(&parts[1]);
                    }
                }
            },
            None => {},
        }
    }
    Ok(
        FormattedHoverData {
            title: from_chars(&title),
            signature: match signature {
                Some(s) => Some(from_chars(&s)),
                None => None,
            },
            documentation: match documentation {
                Some(s) => Some(from_chars(&s)),
                None => None,
            },
            source_code: match source_code {
                Some(s) => Some(from_chars(&s)),
                None => None,
            },
            raw: contents.to_owned(),
        },
    )
}

fn clone_chars(s: &Vec<char>) -> (r: Vec<char>)
    ensures
        r@ == s@,
{
    let mut out: Vec<char> = Vec::new();
    let mut i: usize = 0;
    while i < s.len()
        invariant
            i <= s@.len(),
            out@ =~= s@.take(i as int),
        decreases s@.len() - i,
    {
        out.push(s[i]);
        proof {
            assert(s@.take(i + 1) =~= s@.take(i as int).push(s@[i as int]));
        }
        i += 1;
    }
    proof {
        assert(s@.take(s@.len() as int) =~= s@);
    }
    out
}

fn join_lines(parts: &Vec<Vec<char>>) -> Vec<char> {
    join_from(parts, 0, '\n')
}

/// The title split at spaces, newlines, colons and dashes, empties
/// dropped.
fn split_title_words(s: &Vec<char>) -> Vec<Vec<char>> {
    let mut parts: Vec<Vec<char>> = Vec::new();
    let mut cur: Vec<char> = Vec::new();
    let n = s.len();
    let mut i: usize = 0;
    while i < n
        invariant
            n == s@.len(),
            i <= n,
        decreases n - i,
    {
        let c = s[i];
        if c == ' ' || c == '\n' || c == ':' || c == '-' {
            if cur.len() > 0 {
                parts.push(cur);
                cur = Vec::new();
            }
        } else {
            cur.push(c);
        }
        i += 1;
    }
    if cur.len() > 0 {
        parts.push(cur);
    }
    parts
}

fn join_limited(parts: &Vec<Vec<char>>, limit: usize) -> Vec<char> {
    let mut out: Vec<char> = Vec::new();
    let mut i: usize = 0;
    let n = if parts.len() < limit {
        parts.len()
    } else {
        limit
    };
    while i < n
        invariant
            n <= parts.len(),
            i <= n,
        decreases n - i,
    {
        if out.len() > 0 {
            out.push(' ');
        }
        let part = &parts[i];
        let mut j: usize = 0;
        while j < part.len()
            invariant
                j <= part.len(),
            decreases part.len() - j,
        {
            out.push(part[j]);
            j += 1;
        }
        i += 1;
    }
    out
}

/// The leading run of a struct name: everything before a brace, an angle
/// bracket or a space.
fn first_struct_name(s: &Vec<char>) -> Vec<char> {
    let mut out: Vec<char> = Vec::new();
    let n = s.len();
    let mut i: usize = 0;
    while i < n
        invariant
            n == s@.len(),
            i <= n,
        decreases n - i,
    {
        let c = s[i];
        if c == '{' || c == '<' || c == ' ' {
            return trim_chars(&out);
        }
        out.push(c);
        i += 1;
    }
    trim_chars(&out)
}

} // verus!
