//! Standard Markdown to Telegram MarkdownV2 conversion.
//!
//! The converter protects fenced code blocks behind placeholders, processes
//! the text line by line (headers become bold, blockquote markers are
//! dropped), converts inline formatting (`**bold**` and `__bold__` to
//! `*bold*`, `*italic*` and `_italic_` to `_italic_`, links kept with their
//! text and target escaped), escapes MarkdownV2's reserved punctuation in
//! plain text, and finally restores the code blocks untouched.

use vstd::prelude::*;

use crate::text::{chars_to_string, replace_all, spec_replace_all, str_to_chars};

verus! {

// ---------------------------------------------------------------------------
// Character escapes
// ---------------------------------------------------------------------------

/// Whether MarkdownV2 requires this character to be escaped in plain text.
/// The formatting characters themselves are handled by the inline machine,
/// not escaped here.
pub open spec fn is_md_special(c: char) -> bool {
    c == '\\' || c == '~' || c == '>' || c == '#' || c == '+' || c == '-' || c == '=' || c == '|'
        || c == '{' || c == '}' || c == '.' || c == '!'
}

/// How one character is written in MarkdownV2 plain text.
pub open spec fn spec_md_escape_char(c: char) -> Seq<char> {
    if is_md_special(c) {
        seq!['\\', c]
    } else {
        seq![c]
    }
}

/// How a whole text is written in MarkdownV2 plain text.
pub open spec fn spec_md_escape(s: Seq<char>) -> Seq<char>
    decreases s.len(),
{
    if s.len() == 0 {
        Seq::empty()
    } else {
        spec_md_escape_char(s[0]) + spec_md_escape(s.drop_first())
    }
}

/// How one character is written inside link text: `]` and `\` get a
/// backslash.
pub open spec fn spec_link_text_escape_char(c: char) -> Seq<char> {
    if c == ']' || c == '\\' {
        seq!['\\', c]
    } else {
        seq![c]
    }
}

/// How a whole link text is written.
pub open spec fn spec_link_text_escape(s: Seq<char>) -> Seq<char>
    decreases s.len(),
{
    if s.len() == 0 {
        Seq::empty()
    } else {
        spec_link_text_escape_char(s[0]) + spec_link_text_escape(s.drop_first())
    }
}

/// How one character is written inside a link target: `)` and `\` get a
/// backslash.
pub open spec fn spec_url_escape_char(c: char) -> Seq<char> {
    if c == ')' || c == '\\' {
        seq!['\\', c]
    } else {
        seq![c]
    }
}

/// How a whole link target is written.
pub open spec fn spec_url_escape(s: Seq<char>) -> Seq<char>
    decreases s.len(),
{
    if s.len() == 0 {
        Seq::empty()
    } else {
        spec_url_escape_char(s[0]) + spec_url_escape(s.drop_first())
    }
}

/// Escape one character for MarkdownV2 plain text.
pub fn escape_char(c: char) -> (r: String)
    ensures
        r@ == spec_md_escape_char(c),
{
    let mut out: Vec<char> = Vec::new();
    if c == '\\' || c == '~' || c == '>' || c == '#' || c == '+' || c == '-' || c == '=' || c
        == '|' || c == '{' || c == '}' || c == '.' || c == '!' {
        out.push('\\');
        out.push(c);
        assert(out@ =~= spec_md_escape_char(c));
    } else {
        out.push(c);
        assert(out@ =~= spec_md_escape_char(c));
    }
    chars_to_string(&out)
}

/// `spec_md_escape` distributes over one more character at the back.
proof fn lemma_md_escape_push(a: Seq<char>, c: char)
    ensures
        spec_md_escape(a.push(c)) == spec_md_escape(a) + spec_md_escape_char(c),
    decreases a.len(),
{
    if a.len() == 0 {
        assert(a.push(c).drop_first() =~= Seq::<char>::empty());
        assert(spec_md_escape(Seq::<char>::empty()) == Seq::<char>::empty());
        assert(a.push(c)[0] == c);
        assert(spec_md_escape_char(c) + Seq::<char>::empty() =~= spec_md_escape_char(c));
        assert(Seq::<char>::empty() + spec_md_escape_char(c) =~= spec_md_escape_char(c));
    } else {
        lemma_md_escape_push(a.drop_first(), c);
        assert(a.push(c).drop_first() =~= a.drop_first().push(c));
        assert(a.push(c)[0] == a[0]);
        assert(spec_md_escape_char(a[0]) + (spec_md_escape(a.drop_first())
            + spec_md_escape_char(c)) =~= (spec_md_escape_char(a[0]) + spec_md_escape(
            a.drop_first(),
        )) + spec_md_escape_char(c));
    }
}

/// `spec_link_text_escape` distributes over one more character at the back.
proof fn lemma_link_text_escape_push(a: Seq<char>, c: char)
    ensures
        spec_link_text_escape(a.push(c)) == spec_link_text_escape(a)
            + spec_link_text_escape_char(c),
    decreases a.len(),
{
    if a.len() == 0 {
        assert(a.push(c).drop_first() =~= Seq::<char>::empty());
        assert(spec_link_text_escape(Seq::<char>::empty()) == Seq::<char>::empty());
        assert(a.push(c)[0] == c);
        assert(spec_link_text_escape_char(c) + Seq::<char>::empty()
            =~= spec_link_text_escape_char(c));
        assert(Seq::<char>::empty() + spec_link_text_escape_char(c)
            =~= spec_link_text_escape_char(c));
    } else {
        lemma_link_text_escape_push(a.drop_first(), c);
        assert(a.push(c).drop_first() =~= a.drop_first().push(c));
        assert(a.push(c)[0] == a[0]);
        assert(spec_link_text_escape_char(a[0]) + (spec_link_text_escape(a.drop_first())
            + spec_link_text_escape_char(c)) =~= (spec_link_text_escape_char(a[0])
            + spec_link_text_escape(a.drop_first())) + spec_link_text_escape_char(c));
    }
}

/// `spec_url_escape` distributes over one more character at the back.
proof fn lemma_url_escape_push(a: Seq<char>, c: char)
    ensures
        spec_url_escape(a.push(c)) == spec_url_escape(a) + spec_url_escape_char(c),
    decreases a.len(),
{
    if a.len() == 0 {
        assert(a.push(c).drop_first() =~= Seq::<char>::empty());
        assert(spec_url_escape(Seq::<char>::empty()) == Seq::<char>::empty());
        assert(a.push(c)[0] == c);
        assert(spec_url_escape_char(c) + Seq::<char>::empty() =~= spec_url_escape_char(c));
        assert(Seq::<char>::empty() + spec_url_escape_char(c) =~= spec_url_escape_char(c));
    } else {
        lemma_url_escape_push(a.drop_first(), c);
        assert(a.push(c).drop_first() =~= a.drop_first().push(c));
        assert(a.push(c)[0] == a[0]);
        assert(spec_url_escape_char(a[0]) + (spec_url_escape(a.drop_first())
            + spec_url_escape_char(c)) =~= (spec_url_escape_char(a[0]) + spec_url_escape(
            a.drop_first(),
        )) + spec_url_escape_char(c));
    }
}

/// Append the MarkdownV2 plain-text escape of `src` to `out`.
fn push_md_escaped(out: &mut Vec<char>, src: &Vec<char>)
    ensures
        final(out)@ == old(out)@ + spec_md_escape(src@),
{
    let mut i: usize = 0;
    proof {
        assert(src@.subrange(0, 0) =~= Seq::<char>::empty());
        assert(old(out)@ + Seq::<char>::empty() =~= old(out)@);
    }
    while i < src.len()
        invariant
            i <= src@.len(),
            out@ == old(out)@ + spec_md_escape(src@.subrange(0, i as int)),
        decreases src@.len() - i,
    {
        let c = src[i];
        proof {
            assert(src@.subrange(0, i + 1) =~= src@.subrange(0, i as int).push(c));
            lemma_md_escape_push(src@.subrange(0, i as int), c);
        }
        if c == '\\' || c == '~' || c == '>' || c == '#' || c == '+' || c == '-' || c == '='
            || c == '|' || c == '{' || c == '}' || c == '.' || c == '!' {
            out.push('\\');
            out.push(c);
        } else {
            out.push(c);
        }
        proof {
            assert(out@ =~= old(out)@ + spec_md_escape(src@.subrange(0, i + 1)));
        }
        i += 1;
    }
    assert(src@.subrange(0, src@.len() as int) =~= src@);
}

/// Escape a whole text for MarkdownV2 plain text.
pub fn escape_plain_text(text: &str) -> (r: String)
    ensures
        r@ == spec_md_escape(text@),
{
    let src = str_to_chars(text);
    let mut out: Vec<char> = Vec::new();
    push_md_escaped(&mut out, &src);
    assert(out@ =~= spec_md_escape(text@));
    chars_to_string(&out)
}

/// Escape the text part of a link.
pub fn escape_link_text(text: &str) -> (r: String)
    ensures
        r@ == spec_link_text_escape(text@),
{
    let src = str_to_chars(text);
    let mut out: Vec<char> = Vec::new();
    let mut i: usize = 0;
    proof {
        assert(src@.subrange(0, 0) =~= Seq::<char>::empty());
    }
    while i < src.len()
        invariant
            i <= src@.len(),
            src@ == text@,
            out@ == spec_link_text_escape(src@.subrange(0, i as int)),
        decreases src@.len() - i,
    {
        let c = src[i];
        proof {
            assert(src@.subrange(0, i + 1) =~= src@.subrange(0, i as int).push(c));
            lemma_link_text_escape_push(src@.subrange(0, i as int), c);
        }
        if c == ']' || c == '\\' {
            out.push('\\');
            out.push(c);
        } else {
            out.push(c);
        }
        proof {
            assert(out@ =~= spec_link_text_escape(src@.subrange(0, i + 1)));
        }
        i += 1;
    }
    assert(src@.subrange(0, src@.len() as int) =~= src@);
    chars_to_string(&out)
}

/// Escape the target part of a link.
pub fn escape_url(url: &str) -> (r: String)
    ensures
        r@ == spec_url_escape(url@),
{
    let src = str_to_chars(url);
    let mut out: Vec<char> = Vec::new();
    let mut i: usize = 0;
    proof {
        assert(src@.subrange(0, 0) =~= Seq::<char>::empty());
    }
    while i < src.len()
        invariant
            i <= src@.len(),
            src@ == url@,
            out@ == spec_url_escape(src@.subrange(0, i as int)),
        decreases src@.len() - i,
    {
        let c = src[i];
        proof {
            assert(src@.subrange(0, i + 1) =~= src@.subrange(0, i as int).push(c));
            lemma_url_escape_push(src@.subrange(0, i as int), c);
        }
        if c == ')' || c == '\\' {
            out.push('\\');
            out.push(c);
        } else {
            out.push(c);
        }
        proof {
            assert(out@ =~= spec_url_escape(src@.subrange(0, i + 1)));
        }
        i += 1;
    }
    assert(src@.subrange(0, src@.len() as int) =~= src@);
    chars_to_string(&out)
}

// ---------------------------------------------------------------------------
// Inline scans
// ---------------------------------------------------------------------------

/// Prefix the collected characters of a scan with `acc`.
pub open spec fn sc_combine(acc: Seq<char>, r: (Seq<char>, int)) -> (Seq<char>, int) {
    (acc + r.0, r.1)
}

/// Scan for the closing doubled delimiter `dd`: the collected content and
/// the index just past the close (the end of the text when unclosed; the
/// content still counts).  A lone delimiter joins the content.
pub open spec fn spec_scan_double(s: Seq<char>, i: int, d: char) -> (Seq<char>, int)
    decreases s.len() - i,
{
    if i < 0 || i >= s.len() {
        (Seq::empty(), s.len() as int)
    } else if s[i] == d {
        if i + 1 < s.len() && s[i + 1] == d {
            (Seq::empty(), i + 2)
        } else {
            let r = spec_scan_double(s, i + 1, d);
            (seq![d] + r.0, r.1)
        }
    } else {
        let r = spec_scan_double(s, i + 1, d);
        (seq![s[i]] + r.0, r.1)
    }
}

/// Scan for the closing single delimiter `d`.
pub open spec fn spec_scan_single(s: Seq<char>, i: int, d: char) -> (Seq<char>, int)
    decreases s.len() - i,
{
    if i < 0 || i >= s.len() {
        (Seq::empty(), s.len() as int)
    } else if s[i] == d {
        (Seq::empty(), i + 1)
    } else {
        let r = spec_scan_single(s, i + 1, d);
        (seq![s[i]] + r.0, r.1)
    }
}

/// Scan for the closing bracket of a link text: content, next index, and
/// whether the bracket was found.
pub open spec fn spec_scan_link_text(s: Seq<char>, i: int) -> (Seq<char>, int, bool)
    decreases s.len() - i,
{
    if i < 0 || i >= s.len() {
        (Seq::empty(), s.len() as int, false)
    } else if s[i] == ']' {
        (Seq::empty(), i + 1, true)
    } else {
        let r = spec_scan_link_text(s, i + 1);
        (seq![s[i]] + r.0, r.1, r.2)
    }
}

/// Scan a link target up to the parenthesis that balances `depth` open ones.
pub open spec fn spec_scan_url(s: Seq<char>, i: int, depth: int) -> (Seq<char>, int, bool)
    decreases s.len() - i,
{
    if i < 0 || i >= s.len() {
        (Seq::empty(), s.len() as int, false)
    } else if s[i] == ')' {
        if depth == 1 {
            (Seq::empty(), i + 1, true)
        } else {
            let r = spec_scan_url(s, i + 1, depth - 1);
            (seq![')'] + r.0, r.1, r.2)
        }
    } else if s[i] == '(' {
        let r = spec_scan_url(s, i + 1, depth + 1);
        (seq!['('] + r.0, r.1, r.2)
    } else {
        let r = spec_scan_url(s, i + 1, depth);
        (seq![s[i]] + r.0, r.1, r.2)
    }
}

/// What scanning for a link after `[` yields: a link, or no link with the
/// index where scanning stopped (the characters the scan consumed are
/// dropped, as a pull-based scan leaves them behind).
pub enum LinkScanV {
    Link { text: Seq<char>, url: Seq<char>, next: int },
    NoLink { next: int },
}

/// Try to read `text](url)` starting at `i` (just after the `[`).
pub open spec fn spec_try_link(s: Seq<char>, i: int) -> LinkScanV {
    let r = spec_scan_link_text(s, i);
    if !r.2 {
        LinkScanV::NoLink { next: r.1 }
    } else if r.1 >= s.len() || s[r.1] != '(' {
        LinkScanV::NoLink { next: r.1 }
    } else {
        let u = spec_scan_url(s, r.1 + 1, 1);
        if u.2 {
            LinkScanV::Link { text: r.0, url: u.0, next: u.1 }
        } else {
            LinkScanV::NoLink { next: u.1 }
        }
    }
}

/// Scan for a closing doubled delimiter.
fn scan_double(s: &Vec<char>, start: usize, d: char) -> (r: (Vec<char>, usize))
    requires
        start <= s@.len(),
    ensures
        spec_scan_double(s@, start as int, d) == (r.0@, r.1 as int),
        start <= r.1 <= s@.len(),
{
    let mut acc: Vec<char> = Vec::new();
    let mut i = start;
    proof {
        match spec_scan_double(s@, start as int, d) {
            (c, _j) => {
                assert(Seq::<char>::empty() + c =~= c);
            },
        }
    }
    loop
        invariant
            start <= i <= s@.len(),
            sc_combine(acc@, spec_scan_double(s@, i as int, d)) == spec_scan_double(
                s@,
                start as int,
                d,
            ),
        decreases s@.len() - i,
    {
        if i >= s.len() {
            proof {
                assert(acc@ + Seq::<char>::empty() =~= acc@);
            }
            return (acc, s.len());
        }
        let c = s[i];
        if c == d {
            if i + 1 < s.len() && s[i + 1] == d {
                proof {
                    assert(acc@ + Seq::<char>::empty() =~= acc@);
                }
                return (acc, i + 2);
            }
            proof {
                let rest = spec_scan_double(s@, i + 1, d);
                assert(acc@.push(d) =~= acc@ + seq![d]);
                assert((acc@ + seq![d]) + rest.0 =~= acc@ + (seq![d] + rest.0));
            }
            acc.push(d);
            i += 1;
        } else {
            proof {
                let rest = spec_scan_double(s@, i + 1, d);
                assert(acc@.push(c) =~= acc@ + seq![c]);
                assert((acc@ + seq![c]) + rest.0 =~= acc@ + (seq![c] + rest.0));
            }
            acc.push(c);
            i += 1;
        }
    }
}

/// Scan for a closing single delimiter.
fn scan_single(s: &Vec<char>, start: usize, d: char) -> (r: (Vec<char>, usize))
    requires
        start <= s@.len(),
    ensures
        spec_scan_single(s@, start as int, d) == (r.0@, r.1 as int),
        start <= r.1 <= s@.len(),
{
    let mut acc: Vec<char> = Vec::new();
    let mut i = start;
    proof {
        match spec_scan_single(s@, start as int, d) {
            (c, _j) => {
                assert(Seq::<char>::empty() + c =~= c);
            },
        }
    }
    loop
        invariant
            start <= i <= s@.len(),
            sc_combine(acc@, spec_scan_single(s@, i as int, d)) == spec_scan_single(
                s@,
                start as int,
                d,
            ),
        decreases s@.len() - i,
    {
        if i >= s.len() {
            proof {
                assert(acc@ + Seq::<char>::empty() =~= acc@);
            }
            return (acc, s.len());
        }
        let c = s[i];
        if c == d {
            proof {
                assert(acc@ + Seq::<char>::empty() =~= acc@);
            }
            return (acc, i + 1);
        }
        proof {
            let rest = spec_scan_single(s@, i + 1, d);
            assert(acc@.push(c) =~= acc@ + seq![c]);
            assert((acc@ + seq![c]) + rest.0 =~= acc@ + (seq![c] + rest.0));
        }
        acc.push(c);
        i += 1;
    }
}

/// Scan for the closing bracket of a link text.
fn scan_link_text(s: &Vec<char>, start: usize) -> (r: (Vec<char>, usize, bool))
    requires
        start <= s@.len(),
    ensures
        spec_scan_link_text(s@, start as int) == (r.0@, r.1 as int, r.2),
        start <= r.1 <= s@.len(),
{
    let mut acc: Vec<char> = Vec::new();
    let mut i = start;
    proof {
        match spec_scan_link_text(s@, start as int) {
            (c, _j, _f) => {
                assert(Seq::<char>::empty() + c =~= c);
            },
        }
    }
    loop
        invariant
            start <= i <= s@.len(),
            ({
                let full = spec_scan_link_text(s@, start as int);
                let rest = spec_scan_link_text(s@, i as int);
                full == (acc@ + rest.0, rest.1, rest.2)
            }),
        decreases s@.len() - i,
    {
        if i >= s.len() {
            proof {
                assert(acc@ + Seq::<char>::empty() =~= acc@);
            }
            return (acc, s.len(), false);
        }
        let c = s[i];
        if c == ']' {
            proof {
                assert(acc@ + Seq::<char>::empty() =~= acc@);
            }
            return (acc, i + 1, true);
        }
        proof {
            let rest = spec_scan_link_text(s@, i + 1);
            assert(acc@.push(c) =~= acc@ + seq![c]);
            assert((acc@ + seq![c]) + rest.0 =~= acc@ + (seq![c] + rest.0));
        }
        acc.push(c);
        i += 1;
    }
}

/// Scan a link target for the balancing parenthesis.
fn scan_url(s: &Vec<char>, start: usize) -> (r: (Vec<char>, usize, bool))
    requires
        1 <= start <= s@.len(),
    ensures
        spec_scan_url(s@, start as int, 1int) == (r.0@, r.1 as int, r.2),
        start <= r.1 <= s@.len(),
{
    let mut acc: Vec<char> = Vec::new();
    let mut i = start;
    let mut depth: usize = 1;
    proof {
        match spec_scan_url(s@, start as int, 1int) {
            (c, _j, _f) => {
                assert(Seq::<char>::empty() + c =~= c);
            },
        }
    }
    loop
        invariant
            1 <= start <= i <= s@.len(),
            1 <= depth,
            depth <= 1 + (i - start),
            ({
                let full = spec_scan_url(s@, start as int, 1int);
                let rest = spec_scan_url(s@, i as int, depth as int);
                full == (acc@ + rest.0, rest.1, rest.2)
            }),
        decreases s@.len() - i,
    {
        if i >= s.len() {
            proof {
                assert(acc@ + Seq::<char>::empty() =~= acc@);
            }
            return (acc, s.len(), false);
        }
        let c = s[i];
        if c == ')' {
            if depth == 1 {
                proof {
                    assert(acc@ + Seq::<char>::empty() =~= acc@);
                }
                return (acc, i + 1, true);
            }
            proof {
                let rest = spec_scan_url(s@, i + 1, depth as int - 1);
                assert(acc@.push(')') =~= acc@ + seq![')']);
                assert((acc@ + seq![')']) + rest.0 =~= acc@ + (seq![')'] + rest.0));
            }
            acc.push(')');
            depth -= 1;
            i += 1;
        } else if c == '(' {
            proof {
                let rest = spec_scan_url(s@, i + 1, depth as int + 1);
                assert(acc@.push('(') =~= acc@ + seq!['(']);
                assert((acc@ + seq!['(']) + rest.0 =~= acc@ + (seq!['('] + rest.0));
            }
            acc.push('(');
            depth += 1;
            i += 1;
        } else {
            proof {
                let rest = spec_scan_url(s@, i + 1, depth as int);
                assert(acc@.push(c) =~= acc@ + seq![c]);
                assert((acc@ + seq![c]) + rest.0 =~= acc@ + (seq![c] + rest.0));
            }
            acc.push(c);
            i += 1;
        }
    }
}

/// Try to read a link `text](url)` starting just after a `[`.
pub fn try_parse_link(s: &Vec<char>, start: usize) -> (r: Option<(String, String, usize)>)
    requires
        start <= s@.len(),
    ensures
        (match r {
            Some((text, url, next)) => spec_try_link(s@, start as int) == (LinkScanV::Link {
                text: text@,
                url: url@,
                next: next as int,
            }) && start <= next <= s@.len(),
            None => spec_try_link(s@, start as int) matches LinkScanV::NoLink { .. },
        }),
        (spec_try_link(s@, start as int) matches LinkScanV::NoLink { next } ==> r is None
            && start <= next <= s@.len()),
{
    let (txt, j, found) = scan_link_text(s, start);
    if !found {
        return None;
    }
    if j >= s.len() {
        return None;
    }
    if s[j] != '(' {
        return None;
    }
    let (url, k, found2) = scan_url(s, j + 1);
    if !found2 {
        return None;
    }
    Some((chars_to_string(&txt), chars_to_string(&url), k))
}

/// The position where a failed link scan stopped.
pub open spec fn spec_link_fail_next(s: Seq<char>, i: int) -> int {
    match spec_try_link(s, i) {
        LinkScanV::Link { next, .. } => next,
        LinkScanV::NoLink { next } => next,
    }
}

/// The position where a failed link scan stopped.
fn link_scan_next(s: &Vec<char>, start: usize) -> (r: usize)
    requires
        start <= s@.len(),
    ensures
        r as int == spec_link_fail_next(s@, start as int),
        start <= r <= s@.len(),
{
    let (_txt, j, found) = scan_link_text(s, start);
    if !found {
        return j;
    }
    if j >= s.len() {
        return j;
    }
    if s[j] != '(' {
        return j;
    }
    let (_url, k, _found2) = scan_url(s, j + 1);
    k
}

// ---------------------------------------------------------------------------
// Headers
// ---------------------------------------------------------------------------

/// First index at or after `i` holding something other than `#`.
pub open spec fn spec_hash_end(s: Seq<char>, i: int) -> int
    decreases s.len() - i,
{
    if 0 <= i && i < s.len() && s[i] == '#' {
        spec_hash_end(s, i + 1)
    } else {
        i
    }
}

/// The text of a header line: after leading whitespace, one to six `#`
/// characters, then the rest with one following space dropped.
pub open spec fn spec_parse_header(line: Seq<char>) -> Option<Seq<char>> {
    let t0 = crate::codec::spec_skip_ws(line, 0);
    if t0 >= line.len() || line[t0] != '#' {
        None
    } else {
        let h = spec_hash_end(line, t0);
        if h - t0 > 6 {
            None
        } else if h >= line.len() {
            Some(Seq::empty())
        } else if line[h] == ' ' {
            Some(line.subrange(h + 1, line.len() as int))
        } else {
            Some(line.subrange(h, line.len() as int))
        }
    }
}

/// Parse a header line, returning its text if it is one.
pub fn parse_header(line: &str) -> (r: Option<String>)
    ensures
        r.deep_view() == spec_parse_header(line@),
{
    let chars = str_to_chars(line);
    let t0 = crate::codec::skip_ws(&chars, 0);
    if t0 >= chars.len() {
        return None;
    }
    if chars[t0] != '#' {
        return None;
    }
    let mut h = t0;
    while h < chars.len() && chars[h] == '#'
        invariant
            t0 <= h <= chars@.len(),
            spec_hash_end(chars@, t0 as int) == spec_hash_end(chars@, h as int),
        decreases chars@.len() - h,
    {
        assert(spec_hash_end(chars@, h as int) == spec_hash_end(chars@, h + 1));
        h += 1;
    }
    assert(spec_hash_end(chars@, h as int) == h as int);
    if h - t0 > 6 {
        return None;
    }
    if h >= chars.len() {
        let empty: Vec<char> = Vec::new();
        let out = Some(chars_to_string(&empty));
        assert(out.deep_view() == Some(Seq::<char>::empty()));
        return out;
    }
    let from = if chars[h] == ' ' {
        h + 1
    } else {
        h
    };
    let rest = crate::text::subvec(&chars, from, chars.len());
    Some(chars_to_string(&rest))
}

// ---------------------------------------------------------------------------
// Inline formatting
// ---------------------------------------------------------------------------

/// Inline conversion of one line (or bold/header content) of Markdown:
/// backticks toggle inline code, which passes through untouched; `**` and
/// `__` spans become `*bold*`; `*` and `_` spans become `_italic_`; links
/// keep their shape with text and target escaped; everything else is
/// escaped as plain text.
pub open spec fn spec_inline(s: Seq<char>, i: int, in_code: bool) -> Seq<char>
    decreases s.len() - i,
{
    if i < 0 || i >= s.len() {
        Seq::empty()
    } else {
        let c = s[i];
        if c == '`' {
            seq!['`'] + spec_inline(s, i + 1, !in_code)
        } else if in_code {
            seq![c] + spec_inline(s, i + 1, true)
        } else if c == '*' && i + 1 < s.len() && s[i + 1] == '*' {
            let r = spec_scan_double(s, i + 2, '*');
            let chunk = seq!['*'] + spec_md_escape(r.0) + seq!['*'];
            if r.1 <= i + 1 || r.1 > s.len() {
                chunk
            } else {
                chunk + spec_inline(s, r.1, false)
            }
        } else if c == '_' && i + 1 < s.len() && s[i + 1] == '_' {
            let r = spec_scan_double(s, i + 2, '_');
            let chunk = seq!['*'] + spec_md_escape(r.0) + seq!['*'];
            if r.1 <= i + 1 || r.1 > s.len() {
                chunk
            } else {
                chunk + spec_inline(s, r.1, false)
            }
        } else if c == '_' {
            let r = spec_scan_single(s, i + 1, '_');
            let chunk = seq!['_'] + spec_md_escape(r.0) + seq!['_'];
            if r.1 <= i || r.1 > s.len() {
                chunk
            } else {
                chunk + spec_inline(s, r.1, false)
            }
        } else if c == '*' {
            let r = spec_scan_single(s, i + 1, '*');
            let chunk = seq!['_'] + spec_md_escape(r.0) + seq!['_'];
            if r.1 <= i || r.1 > s.len() {
                chunk
            } else {
                chunk + spec_inline(s, r.1, false)
            }
        } else if c == '[' {
            match spec_try_link(s, i + 1) {
                LinkScanV::Link { text, url, next } => {
                    let chunk = seq!['['] + spec_link_text_escape(text) + seq![']', '(']
                        + spec_url_escape(url) + seq![')'];
                    if next <= i || next > s.len() {
                        chunk
                    } else {
                        chunk + spec_inline(s, next, false)
                    }
                },
                LinkScanV::NoLink { next } => {
                    let chunk = spec_md_escape_char('[');
                    if next <= i || next > s.len() {
                        chunk
                    } else {
                        chunk + spec_inline(s, next, false)
                    }
                },
            }
        } else {
            spec_md_escape_char(c) + spec_inline(s, i + 1, false)
        }
    }
}

/// One emitted chunk folds into the output prefix.
proof fn lemma_out_step(out: Seq<char>, chunk: Seq<char>, a: Seq<char>, b: Seq<char>)
    requires
        a == chunk + b,
    ensures
        out + a == (out + chunk) + b,
{
    assert((out + chunk) + b =~= out + (chunk + b));
}

/// Append the link-text escape of `src` to `out`.
fn push_link_text_escaped(out: &mut Vec<char>, src: &Vec<char>)
    ensures
        final(out)@ == old(out)@ + spec_link_text_escape(src@),
{
    let mut i: usize = 0;
    proof {
        assert(src@.subrange(0, 0) =~= Seq::<char>::empty());
        assert(old(out)@ + Seq::<char>::empty() =~= old(out)@);
    }
    while i < src.len()
        invariant
            i <= src@.len(),
            out@ == old(out)@ + spec_link_text_escape(src@.subrange(0, i as int)),
        decreases src@.len() - i,
    {
        let c = src[i];
        proof {
            assert(src@.subrange(0, i + 1) =~= src@.subrange(0, i as int).push(c));
            lemma_link_text_escape_push(src@.subrange(0, i as int), c);
        }
        if c == ']' || c == '\\' {
            out.push('\\');
            out.push(c);
        } else {
            out.push(c);
        }
        proof {
            assert(out@ =~= old(out)@ + spec_link_text_escape(src@.subrange(0, i + 1)));
        }
        i += 1;
    }
    assert(src@.subrange(0, src@.len() as int) =~= src@);
}

/// Append the link-target escape of `src` to `out`.
fn push_url_escaped(out: &mut Vec<char>, src: &Vec<char>)
    ensures
        final(out)@ == old(out)@ + spec_url_escape(src@),
{
    let mut i: usize = 0;
    proof {
        assert(src@.subrange(0, 0) =~= Seq::<char>::empty());
        assert(old(out)@ + Seq::<char>::empty() =~= old(out)@);
    }
    while i < src.len()
        invariant
            i <= src@.len(),
            out@ == old(out)@ + spec_url_escape(src@.subrange(0, i as int)),
        decreases src@.len() - i,
    {
        let c = src[i];
        proof {
            assert(src@.subrange(0, i + 1) =~= src@.subrange(0, i as int).push(c));
            lemma_url_escape_push(src@.subrange(0, i as int), c);
        }
        if c == ')' || c == '\\' {
            out.push('\\');
            out.push(c);
        } else {
            out.push(c);
        }
        proof {
            assert(out@ =~= old(out)@ + spec_url_escape(src@.subrange(0, i + 1)));
        }
        i += 1;
    }
    assert(src@.subrange(0, src@.len() as int) =~= src@);
}

/// Convert inline formatting of one line.
#[verifier::rlimit(100)]
pub fn process_inline_formatting(text: &str) -> (r: String)
    ensures
        r@ == spec_inline(text@, 0, false),
{
    let s = str_to_chars(text);
    let mut out: Vec<char> = Vec::new();
    let mut i: usize = 0;
    let mut in_code = false;
    proof {
        assert(Seq::<char>::empty() + spec_inline(s@, 0, false) =~= spec_inline(s@, 0, false));
    }
    loop
        invariant
            i <= s@.len(),
            s@ == text@,
            out@ + spec_inline(s@, i as int, in_code) == spec_inline(s@, 0, false),
        decreases s@.len() - i,
    {
        if i >= s.len() {
            proof {
                assert(out@ + Seq::<char>::empty() =~= out@);
            }
            return chars_to_string(&out);
        }
        let c = s[i];
        if c == '`' {
            proof {
                lemma_out_step(
                    out@,
                    seq!['`'],
                    spec_inline(s@, i as int, in_code),
                    spec_inline(s@, i + 1, !in_code),
                );
                assert(out@.push('`') =~= out@ + seq!['`']);
            }
            out.push('`');
            in_code = !in_code;
            i += 1;
        } else if in_code {
            proof {
                lemma_out_step(
                    out@,
                    seq![c],
                    spec_inline(s@, i as int, in_code),
                    spec_inline(s@, i + 1, true),
                );
                assert(out@.push(c) =~= out@ + seq![c]);
            }
            out.push(c);
            i += 1;
        } else if c == '*' && i + 1 < s.len() && s[i + 1] == '*' {
            let (content, j) = scan_double(&s, i + 2, '*');
            proof {
                lemma_out_step(
                    out@,
                    seq!['*'] + spec_md_escape(content@) + seq!['*'],
                    spec_inline(s@, i as int, in_code),
                    spec_inline(s@, j as int, false),
                );
            }
            let ghost out0 = out@;
            out.push('*');
            push_md_escaped(&mut out, &content);
            out.push('*');
            proof {
                assert(out@ =~= out0 + (seq!['*'] + spec_md_escape(content@) + seq!['*']));
            }
            i = j;
        } else if c == '_' && i + 1 < s.len() && s[i + 1] == '_' {
            let (content, j) = scan_double(&s, i + 2, '_');
            proof {
                lemma_out_step(
                    out@,
                    seq!['*'] + spec_md_escape(content@) + seq!['*'],
                    spec_inline(s@, i as int, in_code),
                    spec_inline(s@, j as int, false),
                );
            }
            let ghost out0 = out@;
            out.push('*');
            push_md_escaped(&mut out, &content);
            out.push('*');
            proof {
                assert(out@ =~= out0 + (seq!['*'] + spec_md_escape(content@) + seq!['*']));
            }
            i = j;
        } else if c == '_' {
            let (content, j) = scan_single(&s, i + 1, '_');
            proof {
                lemma_out_step(
                    out@,
                    seq!['_'] + spec_md_escape(content@) + seq!['_'],
                    spec_inline(s@, i as int, in_code),
                    spec_inline(s@, j as int, false),
                );
            }
            let ghost out0 = out@;
            out.push('_');
            push_md_escaped(&mut out, &content);
            out.push('_');
            proof {
                assert(out@ =~= out0 + (seq!['_'] + spec_md_escape(content@) + seq!['_']));
            }
            i = j;
        } else if c == '*' {
            let (content, j) = scan_single(&s, i + 1, '*');
            proof {
                lemma_out_step(
                    out@,
                    seq!['_'] + spec_md_escape(content@) + seq!['_'],
                    spec_inline(s@, i as int, in_code),
                    spec_inline(s@, j as int, false),
                );
            }
            let ghost out0 = out@;
            out.push('_');
            push_md_escaped(&mut out, &content);
            out.push('_');
            proof {
                assert(out@ =~= out0 + (seq!['_'] + spec_md_escape(content@) + seq!['_']));
            }
            i = j;
        } else if c == '[' {
            match try_parse_link(&s, i + 1) {
                Some((link_text, url, next)) => {
                    proof {
                        lemma_out_step(
                            out@,
                            seq!['['] + spec_link_text_escape(link_text@) + seq![']', '(']
                                + spec_url_escape(url@) + seq![')'],
                            spec_inline(s@, i as int, in_code),
                            spec_inline(s@, next as int, false),
                        );
                    }
                    let ghost out0 = out@;
                    let lt = str_to_chars(link_text.as_str());
                    let uc = str_to_chars(url.as_str());
                    out.push('[');
                    push_link_text_escaped(&mut out, &lt);
                    out.push(']');
                    out.push('(');
                    push_url_escaped(&mut out, &uc);
                    out.push(')');
                    proof {
                        assert(out@ =~= out0 + (seq!['['] + spec_link_text_escape(link_text@)
                            + seq![']', '('] + spec_url_escape(url@) + seq![')']));
                    }
                    i = next;
                },
                None => {
                    let next = link_scan_next(&s, i + 1);
                    proof {
                        lemma_out_step(
                            out@,
                            spec_md_escape_char('['),
                            spec_inline(s@, i as int, in_code),
                            spec_inline(s@, next as int, false),
                        );
                        assert(out@.push('[') =~= out@ + spec_md_escape_char('['));
                    }
                    out.push('[');
                    i = next;
                },
            }
        } else {
            proof {
                lemma_out_step(
                    out@,
                    spec_md_escape_char(c),
                    spec_inline(s@, i as int, in_code),
                    spec_inline(s@, i + 1, false),
                );
            }
            let ghost out0 = out@;
            if c == '\\' || c == '~' || c == '>' || c == '#' || c == '+' || c == '-' || c == '='
                || c == '|' || c == '{' || c == '}' || c == '.' || c == '!' {
                out.push('\\');
                out.push(c);
            } else {
                out.push(c);
            }
            proof {
                assert(out@ =~= out0 + spec_md_escape_char(c));
            }
            i += 1;
        }
    }
}

// ---------------------------------------------------------------------------
// Code blocks and placeholders
// ---------------------------------------------------------------------------

/// The placeholder that stands in for code block number `n`.
pub open spec fn spec_placeholder(n: nat) -> Seq<char> {
    "<<<CODEBLOCK"@ + crate::text::spec_dec(n) + ">>>"@
}

/// The placeholder that stands in for code block number `n`.
fn placeholder_chars(n: u64) -> (r: Vec<char>)
    ensures
        r@ == spec_placeholder(n as nat),
{
    let mut v: Vec<char> = Vec::new();
    crate::text::push_str_chars(&mut v, "<<<CODEBLOCK");
    let d = crate::text::dec_chars(n);
    crate::text::push_all(&mut v, &d);
    crate::text::push_str_chars(&mut v, ">>>");
    assert(v@ =~= spec_placeholder(n as nat));
    v
}

/// Scan a fenced block's content after the opening backticks: the collected
/// content (including the closing fence when found), the next index, and
/// whether the fence was closed.
pub open spec fn spec_scan_block(s: Seq<char>, i: int) -> (Seq<char>, int, bool)
    decreases s.len() - i,
{
    if i < 0 || i >= s.len() {
        (Seq::empty(), s.len() as int, false)
    } else if s[i] == '`' {
        if i + 1 < s.len() && s[i + 1] == '`' {
            if i + 2 < s.len() && s[i + 2] == '`' {
                (seq!['`', '`', '`'], i + 3, true)
            } else {
                let r = spec_scan_block(s, i + 2);
                (seq!['`', '`'] + r.0, r.1, r.2)
            }
        } else {
            let r = spec_scan_block(s, i + 1);
            (seq!['`'] + r.0, r.1, r.2)
        }
    } else {
        let r = spec_scan_block(s, i + 1);
        (seq![s[i]] + r.0, r.1, r.2)
    }
}

/// Scan a fenced block's content.
fn scan_block(s: &Vec<char>, start: usize) -> (r: (Vec<char>, usize, bool))
    requires
        start <= s@.len(),
    ensures
        spec_scan_block(s@, start as int) == (r.0@, r.1 as int, r.2),
        start <= r.1 <= s@.len(),
{
    let mut acc: Vec<char> = Vec::new();
    let mut i = start;
    proof {
        match spec_scan_block(s@, start as int) {
            (c, _j, _f) => {
                assert(Seq::<char>::empty() + c =~= c);
            },
        }
    }
    loop
        invariant
            start <= i <= s@.len(),
            ({
                let full = spec_scan_block(s@, start as int);
                let rest = spec_scan_block(s@, i as int);
                full == (acc@ + rest.0, rest.1, rest.2)
            }),
        decreases s@.len() - i,
    {
        if i >= s.len() {
            proof {
                assert(acc@ + Seq::<char>::empty() =~= acc@);
            }
            return (acc, s.len(), false);
        }
        let c = s[i];
        if c == '`' {
            if i + 1 < s.len() && s[i + 1] == '`' {
                if i + 2 < s.len() && s[i + 2] == '`' {
                    proof {
                        assert(acc@ + seq!['`', '`', '`'] =~= acc@.push('`').push('`').push(
                            '`',
                        ));
                    }
                    acc.push('`');
                    acc.push('`');
                    acc.push('`');
                    return (acc, i + 3, true);
                }
                proof {
                    let rest = spec_scan_block(s@, i + 2);
                    assert(acc@.push('`').push('`') =~= acc@ + seq!['`', '`']);
                    assert((acc@ + seq!['`', '`']) + rest.0 =~= acc@ + (seq!['`', '`']
                        + rest.0));
                }
                acc.push('`');
                acc.push('`');
                i += 2;
            } else {
                proof {
                    let rest = spec_scan_block(s@, i + 1);
                    assert(acc@.push('`') =~= acc@ + seq!['`']);
                    assert((acc@ + seq!['`']) + rest.0 =~= acc@ + (seq!['`'] + rest.0));
                }
                acc.push('`');
                i += 1;
            }
        } else {
            proof {
                let rest = spec_scan_block(s@, i + 1);
                assert(acc@.push(c) =~= acc@ + seq![c]);
                assert((acc@ + seq![c]) + rest.0 =~= acc@ + (seq![c] + rest.0));
            }
            acc.push(c);
            i += 1;
        }
    }
}

/// Replace each fenced code block with a numbered placeholder: the text with
/// placeholders, and the blocks in order.  `n` numbers the next block.  An
/// unclosed fence stays in the text as it stands.
pub open spec fn spec_extract(s: Seq<char>, i: int, n: nat) -> (Seq<char>, Seq<Seq<char>>)
    decreases s.len() - i,
{
    if i < 0 || i >= s.len() {
        (Seq::empty(), Seq::empty())
    } else if s[i] == '`' && i + 1 < s.len() && s[i + 1] == '`' {
        if i + 2 < s.len() && s[i + 2] == '`' {
            let blk = spec_scan_block(s, i + 3);
            let content = seq!['`', '`', '`'] + blk.0;
            if blk.2 {
                if blk.1 <= i + 2 || blk.1 > s.len() {
                    (spec_placeholder(n), seq![content])
                } else {
                    let rest = spec_extract(s, blk.1, n + 1);
                    (spec_placeholder(n) + rest.0, seq![content] + rest.1)
                }
            } else {
                (content, Seq::empty())
            }
        } else {
            let rest = spec_extract(s, i + 2, n);
            (seq!['`', '`'] + rest.0, rest.1)
        }
    } else {
        let rest = spec_extract(s, i + 1, n);
        (seq![s[i]] + rest.0, rest.1)
    }
}

/// Replace each fenced code block with a numbered placeholder.
#[verifier::rlimit(60)]
pub fn extract_code_blocks(text: &str) -> (r: (String, Vec<String>))
    ensures
        ({
            let e = spec_extract(text@, 0, 0);
            r.0@ == e.0 && r.1.deep_view() == e.1
        }),
{
    let s = str_to_chars(text);
    let mut out: Vec<char> = Vec::new();
    let mut blocks: Vec<String> = Vec::new();
    let mut i: usize = 0;
    proof {
        match spec_extract(s@, 0, 0) {
            (a, b) => {
                assert(Seq::<char>::empty() + a =~= a);
                assert(blocks.deep_view() + b =~= b);
            },
        }
    }
    loop
        invariant
            i <= s@.len(),
            s@ == text@,
            ({
                let full = spec_extract(s@, 0, 0);
                let rest = spec_extract(s@, i as int, blocks@.len() as nat);
                full == (out@ + rest.0, blocks.deep_view() + rest.1)
            }),
        decreases s@.len() - i,
    {
        if i >= s.len() {
            proof {
                assert(out@ + Seq::<char>::empty() =~= out@);
                assert(blocks.deep_view() + Seq::<Seq<char>>::empty() =~= blocks.deep_view());
            }
            return (chars_to_string(&out), blocks);
        }
        let c = s[i];
        if c == '`' && i + 1 < s.len() && s[i + 1] == '`' {
            if i + 2 < s.len() && s[i + 2] == '`' {
                let (bc, j, closed) = scan_block(&s, i + 3);
                let mut content: Vec<char> = Vec::new();
                content.push('`');
                content.push('`');
                content.push('`');
                crate::text::push_all(&mut content, &bc);
                proof {
                    assert(content@ =~= seq!['`', '`', '`'] + bc@);
                }
                if closed {
                    let ghost n0 = blocks@.len() as nat;
                    let ghost rest = spec_extract(s@, j as int, n0 + 1);
                    let ph = placeholder_chars(blocks.len() as u64);
                    proof {
                        assert((out@ + spec_placeholder(n0)) + rest.0 =~= out@ + (
                        spec_placeholder(n0) + rest.0));
                    }
                    crate::text::push_all(&mut out, &ph);
                    let cs = chars_to_string(&content);
                    let ghost blocks0 = blocks.deep_view();
                    blocks.push(cs);
                    proof {
                        assert(blocks.deep_view() =~= blocks0 + seq![content@]);
                        assert((blocks0 + seq![content@]) + rest.1 =~= blocks0 + (seq![
                            content@,
                        ] + rest.1));
                        assert(blocks@.len() as nat == n0 + 1);
                    }
                    i = j;
                } else {
                    proof {
                        assert(out@ + (seq!['`', '`', '`'] + bc@) + Seq::<char>::empty()
                            =~= out@ + (seq!['`', '`', '`'] + bc@));
                        assert(blocks.deep_view() + Seq::<Seq<char>>::empty()
                            =~= blocks.deep_view());
                    }
                    crate::text::push_all(&mut out, &content);
                    return (chars_to_string(&out), blocks);
                }
            } else {
                proof {
                    let rest = spec_extract(s@, i + 2, blocks@.len() as nat);
                    assert((out@ + seq!['`', '`']) + rest.0 =~= out@ + (seq!['`', '`']
                        + rest.0));
                }
                let ghost out0 = out@;
                out.push('`');
                out.push('`');
                proof {
                    assert(out@ =~= out0 + seq!['`', '`']);
                }
                i += 2;
            }
        } else {
            proof {
                let rest = spec_extract(s@, i + 1, blocks@.len() as nat);
                assert((out@ + seq![c]) + rest.0 =~= out@ + (seq![c] + rest.0));
                assert(out@.push(c) =~= out@ + seq![c]);
            }
            out.push(c);
            i += 1;
        }
    }
}

// ---------------------------------------------------------------------------
// Restoring code blocks
// ---------------------------------------------------------------------------

/// Put the code blocks back in place of their placeholders, in order.
pub open spec fn spec_restore(s: Seq<char>, blocks: Seq<Seq<char>>, idx: nat) -> Seq<char>
    decreases blocks.len() - idx,
{
    if idx >= blocks.len() {
        s
    } else {
        spec_restore(
            spec_replace_all(s, spec_placeholder(idx), blocks[idx as int]),
            blocks,
            idx + 1,
        )
    }
}

/// Put the code blocks back in place of their placeholders.
pub fn restore_code_blocks(text: &str, blocks: &Vec<String>) -> (r: String)
    ensures
        r@ == spec_restore(text@, blocks.deep_view(), 0),
{
    let mut cur = str_to_chars(text);
    let mut i: usize = 0;
    proof {
        assert(blocks.deep_view().len() == blocks@.len());
    }
    while i < blocks.len()
        invariant
            i <= blocks@.len(),
            blocks.deep_view().len() == blocks@.len(),
            spec_restore(cur@, blocks.deep_view(), i as nat) == spec_restore(
                text@,
                blocks.deep_view(),
                0,
            ),
        decreases blocks@.len() - i,
    {
        let ph = placeholder_chars(i as u64);
        assert(ph@.len() > 0) by {
            assert(spec_placeholder(i as nat).len() >= "<<<CODEBLOCK"@.len());
        }
        let b = str_to_chars(blocks[i].as_str());
        proof {
            assert(blocks.deep_view()[i as int] == blocks@[i as int]@);
        }
        cur = replace_all(&cur, &ph, &b);
        i += 1;
    }
    chars_to_string(&cur)
}

// ---------------------------------------------------------------------------
// Lines
// ---------------------------------------------------------------------------

/// First index at or after `i` holding `c`.
pub open spec fn spec_char_find(s: Seq<char>, c: char, i: int) -> int
    decreases s.len() - i,
{
    if i < 0 || i >= s.len() {
        s.len() as int
    } else if s[i] == c {
        i
    } else {
        spec_char_find(s, c, i + 1)
    }
}

/// A carriage return at the very end of a line is dropped, as a text with
/// CRLF line endings demands.
pub open spec fn spec_strip_cr(line: Seq<char>) -> Seq<char> {
    if line.len() > 0 && line[line.len() - 1] == '\r' {
        line.drop_last()
    } else {
        line
    }
}

/// Split on newlines into segments (the newline separators dropped).
pub open spec fn spec_split_nl(s: Seq<char>) -> Seq<Seq<char>>
    decreases s.len(),
{
    let k = spec_char_find(s, '\n', 0);
    if k < 0 || k >= s.len() {
        seq![spec_strip_cr(s)]
    } else {
        seq![spec_strip_cr(s.subrange(0, k))] + spec_split_nl(s.skip(k + 1))
    }
}

/// The lines of a text: split on newlines, with the empty segment a final
/// newline would produce dropped.
pub open spec fn spec_lines(s: Seq<char>) -> Seq<Seq<char>> {
    if s.len() > 0 && s[s.len() - 1] == '\n' {
        spec_split_nl(s).drop_last()
    } else {
        spec_split_nl(s)
    }
}

/// Split a text into its lines.
#[verifier::rlimit(60)]
fn split_lines(s: &Vec<char>) -> (r: Vec<Vec<char>>)
    ensures
        r.deep_view() == spec_lines(s@),
{
    let mut out: Vec<Vec<char>> = Vec::new();
    let mut rem = crate::text::subvec(s, 0, s.len());
    proof {
        assert(rem@ =~= s@);
        assert(out.deep_view() + spec_split_nl(rem@) =~= spec_split_nl(s@));
    }
    loop
        invariant
            out.deep_view() + spec_split_nl(rem@) == spec_split_nl(s@),
        decreases rem@.len(),
    {
        let mut k: usize = 0;
        while k < rem.len() && rem[k] != '\n'
            invariant
                k <= rem@.len(),
                spec_char_find(rem@, '\n', 0) == spec_char_find(rem@, '\n', k as int),
            decreases rem@.len() - k,
        {
            assert(spec_char_find(rem@, '\n', k as int) == spec_char_find(rem@, '\n', k + 1));
            k += 1;
        }
        assert(spec_char_find(rem@, '\n', k as int) == (if k < rem@.len() {
            k as int
        } else {
            rem@.len() as int
        }));
        let mut seg = crate::text::subvec(&rem, 0, k);
        if seg.len() > 0 && seg[seg.len() - 1] == '\r' {
            let _ = seg.pop();
            proof {
                assert(seg@ =~= spec_strip_cr(rem@.subrange(0, k as int)));
            }
        } else {
            proof {
                assert(rem@.subrange(0, k as int) =~= seg@);
                assert(seg@ =~= spec_strip_cr(rem@.subrange(0, k as int)));
            }
        }
        if k >= rem.len() {
            proof {
                assert(rem@.subrange(0, k as int) =~= rem@);
                let ghost ov = out.deep_view();
                assert(ov + (seq![spec_strip_cr(rem@)]) =~= ov.push(spec_strip_cr(rem@)));
            }
            let ghost ov0 = out.deep_view();
            let ghost segv = seg@;
            out.push(seg);
            proof {
                assert(out.deep_view() =~~= ov0.push(segv));
                assert(out.deep_view() =~~= spec_split_nl(s@));
            }
            if s.len() > 0 && s[s.len() - 1] == '\n' {
                let _ = out.pop();
                proof {
                    assert(out.deep_view() =~~= spec_split_nl(s@).drop_last());
                }
            }
            return out;
        }
        let next = crate::text::subvec(&rem, k + 1, rem.len());
        proof {
            assert(next@ =~= rem@.skip(k + 1));
            let ghost ov = out.deep_view();
            assert((ov + (seq![spec_strip_cr(rem@.subrange(0, k as int))] + spec_split_nl(
                next@,
            ))) =~= (ov.push(spec_strip_cr(rem@.subrange(0, k as int)))) + spec_split_nl(
                next@,
            ));
        }
        let ghost ov0 = out.deep_view();
        let ghost segv = seg@;
        out.push(seg);
        proof {
            assert(out.deep_view() =~~= ov0.push(segv));
        }
        rem = next;
    }
}

// ---------------------------------------------------------------------------
// Whole-text conversion
// ---------------------------------------------------------------------------

/// Whether the line is a code-block placeholder and must pass through
/// untouched.
pub open spec fn spec_is_placeholder_line(line: Seq<char>) -> bool {
    line.len() >= 12 && line.subrange(0, 12) == "<<<CODEBLOCK"@ && line.subrange(
        line.len() - 3,
        line.len() as int,
    ) == ">>>"@
}

/// Convert one line: placeholders pass through, headers become bold, a
/// leading blockquote marker is dropped, and inline formatting is converted.
pub open spec fn spec_convert_line(line: Seq<char>) -> Seq<char> {
    if spec_is_placeholder_line(line) {
        line
    } else {
        match spec_parse_header(line) {
            Some(h) => seq!['*'] + spec_inline(h, 0, false) + seq!['*'],
            None => {
                let l2 = if line.len() >= 2 && line[0] == '>' && line[1] == ' ' {
                    line.skip(2)
                } else if line.len() >= 1 && line[0] == '>' {
                    line.skip(1)
                } else {
                    line
                };
                spec_inline(l2, 0, false)
            },
        }
    }
}

/// Join converted lines with newlines; nothing is placed before a line while
/// the output so far is empty.
pub open spec fn spec_join(lines: Seq<Seq<char>>, idx: int, started: bool) -> Seq<char>
    decreases lines.len() - idx,
{
    if idx < 0 || idx >= lines.len() {
        Seq::empty()
    } else {
        let c = spec_convert_line(lines[idx]);
        (if started {
            seq!['\n']
        } else {
            Seq::empty()
        }) + c + spec_join(lines, idx + 1, started || c.len() > 0)
    }
}

/// The converted body of a text whose code blocks are already extracted,
/// with the input's trailing newline restored when the conversion lost it.
pub open spec fn spec_convert(text: Seq<char>) -> Seq<char> {
    let e = spec_extract(text, 0, 0);
    let body = spec_join(spec_lines(e.0), 0, false);
    let body2 = if text.len() > 0 && text[text.len() - 1] == '\n' && !(body.len() > 0
        && body[body.len() - 1] == '\n') {
        body + seq!['\n']
    } else {
        body
    };
    spec_restore(body2, e.1, 0)
}

/// Convert one line.
fn convert_line(line: &Vec<char>) -> (r: Vec<char>)
    ensures
        r@ == spec_convert_line(line@),
{
    let is_ph = if line.len() >= 12 {
        let pre = crate::text::subvec(line, 0, 12);
        let suf = crate::text::subvec(line, line.len() - 3, line.len());
        crate::text::chars_eq_str(&pre, "<<<CODEBLOCK") && crate::text::chars_eq_str(
            &suf,
            ">>>",
        )
    } else {
        false
    };
    if is_ph {
        let r = crate::text::subvec(line, 0, line.len());
        assert(r@ =~= line@);
        return r;
    }
    assert(!spec_is_placeholder_line(line@));
    let ls = chars_to_string(line);
    match parse_header(ls.as_str()) {
        Some(h) => {
            let mut out: Vec<char> = Vec::new();
            out.push('*');
            let inner = process_inline_formatting(h.as_str());
            let ic = str_to_chars(inner.as_str());
            crate::text::push_all(&mut out, &ic);
            out.push('*');
            proof {
                assert(out@ =~= seq!['*'] + spec_inline(h@, 0, false) + seq!['*']);
            }
            out
        },
        None => {
            let l2 = if line.len() >= 2 && line[0] == '>' && line[1] == ' ' {
                crate::text::subvec(line, 2, line.len())
            } else if line.len() >= 1 && line[0] == '>' {
                crate::text::subvec(line, 1, line.len())
            } else {
                crate::text::subvec(line, 0, line.len())
            };
            proof {
                if line@.len() >= 2 && line@[0] == '>' && line@[1] == ' ' {
                    assert(l2@ =~= line@.skip(2));
                } else if line@.len() >= 1 && line@[0] == '>' {
                    assert(l2@ =~= line@.skip(1));
                } else {
                    assert(l2@ =~= line@);
                }
            }
            let l2s = chars_to_string(&l2);
            let r = process_inline_formatting(l2s.as_str());
            str_to_chars(r.as_str())
        },
    }
}

/// Convert standard Markdown to Telegram MarkdownV2.
#[verifier::rlimit(60)]
pub fn convert_markdown_to_v2(text: &str) -> (r: String)
    ensures
        r@ == spec_convert(text@),
{
    let (extracted, blocks) = extract_code_blocks(text);
    let echars = str_to_chars(extracted.as_str());
    let lines = split_lines(&echars);
    let ghost linesv = lines.deep_view();
    let mut out: Vec<char> = Vec::new();
    let mut started = false;
    let mut i: usize = 0;
    proof {
        assert(lines.deep_view().len() == lines@.len());
        assert(Seq::<char>::empty() + spec_join(linesv, 0, false) =~= spec_join(
            linesv,
            0,
            false,
        ));
    }
    while i < lines.len()
        invariant
            i <= lines@.len(),
            linesv == lines.deep_view(),
            linesv.len() == lines@.len(),
            started == (out@.len() > 0),
            out@ + spec_join(linesv, i as int, started) == spec_join(linesv, 0, false),
        decreases lines@.len() - i,
    {
        proof {
            assert(linesv[i as int] == lines@[i as int]@);
        }
        let c = convert_line(&lines[i]);
        let ghost out0 = out@;
        if started {
            out.push('\n');
        }
        crate::text::push_all(&mut out, &c);
        proof {
            let pre: Seq<char> = if started {
                seq!['\n']
            } else {
                Seq::<char>::empty()
            };
            assert(out@ =~= out0 + (pre + c@));
            assert(out0 + ((pre + c@) + spec_join(linesv, i + 1, started || c@.len() > 0))
                =~= (out0 + (pre + c@)) + spec_join(linesv, i + 1, started || c@.len() > 0));
        }
        if c.len() > 0 {
            started = true;
        }
        i += 1;
    }
    proof {
        assert(out@ + Seq::<char>::empty() =~= out@);
    }
    let tchars = str_to_chars(text);
    if tchars.len() > 0 && tchars[tchars.len() - 1] == '\n' && !(out.len() > 0 && out[out.len()
        - 1] == '\n') {
        out.push('\n');
    }
    let body = chars_to_string(&out);
    restore_code_blocks(body.as_str(), &blocks)
}

} // verus!