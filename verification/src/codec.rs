//! Wire-protocol codec.
//!
//! The supervised subprocess speaks a newline-delimited JSON protocol: one
//! JSON object per line in both directions.  This module parses one line into
//! a JSON value, classifies it as a protocol event, and encodes the outbound
//! user message.  Decoding is tolerant: a line that is not valid JSON, or
//! whose `type` field is missing or unrecognized, yields [`ParsedEvent::Other`]
//! rather than an error — the session engine decides whether to keep reading.
//!
//! The grammar is this library's own: the parser is written here, on
//! characters, and verified against the specification-level parser that the
//! contracts quote.  Nesting is bounded by [`MAX_DEPTH`] so that decoding a
//! hostile line cannot exhaust the stack.

use vstd::prelude::*;

use crate::text::{chars_to_string, push_str_chars, str_to_chars};

verus! {

/// Maximum JSON nesting depth accepted by the parser.
pub const MAX_DEPTH: u32 = 128;

// ---------------------------------------------------------------------------
// JSON values
// ---------------------------------------------------------------------------

/// Specification-level JSON value.
///
/// Numbers keep their source text: the protocol never reads a numeric field,
/// and keeping the text avoids committing to any numeric interpretation.
pub enum JsonV {
    Null,
    Bool(bool),
    Num(Seq<char>),
    Str(Seq<char>),
    Arr(Seq<JsonV>),
    Obj(Seq<(Seq<char>, JsonV)>),
}

/// Executable JSON value; its mathematical model is [`JsonV`].
pub enum Json {
    Null,
    Bool(bool),
    Num(Vec<char>),
    Str(Vec<char>),
    Arr(Vec<Json>),
    Obj(Vec<(Vec<char>, Json)>),
}

/// The model of an executable JSON value.
pub open spec fn jview(j: Json) -> JsonV
    decreases j,
{
    match j {
        Json::Null => JsonV::Null,
        Json::Bool(b) => JsonV::Bool(b),
        Json::Num(v) => JsonV::Num(v@),
        Json::Str(v) => JsonV::Str(v@),
        Json::Arr(elems) => JsonV::Arr(jview_seq(elems@)),
        Json::Obj(members) => JsonV::Obj(jview_members(members@)),
    }
}

/// The models of a sequence of executable JSON values, elementwise.
pub open spec fn jview_seq(l: Seq<Json>) -> Seq<JsonV>
    decreases l,
{
    if l.len() == 0 {
        Seq::empty()
    } else {
        seq![jview(l[0])] + jview_seq(l.drop_first())
    }
}

/// The models of a sequence of executable object members, elementwise.
pub open spec fn jview_members(l: Seq<(Vec<char>, Json)>) -> Seq<(Seq<char>, JsonV)>
    decreases l,
{
    if l.len() == 0 {
        Seq::empty()
    } else {
        seq![(l[0].0@, jview(l[0].1))] + jview_members(l.drop_first())
    }
}

/// `jview_seq` maps elementwise.
pub proof fn lemma_jview_seq(l: Seq<Json>)
    ensures
        jview_seq(l).len() == l.len(),
        forall|k: int| 0 <= k < l.len() ==> jview_seq(l)[k] == jview(l[k]),
    decreases l.len(),
{
    if l.len() > 0 {
        lemma_jview_seq(l.drop_first());
    }
}

/// `jview_members` maps elementwise.
pub proof fn lemma_jview_members(l: Seq<(Vec<char>, Json)>)
    ensures
        jview_members(l).len() == l.len(),
        forall|k: int|
            0 <= k < l.len() ==> jview_members(l)[k] == (l[k].0@, jview(l[k].1)),
    decreases l.len(),
{
    if l.len() > 0 {
        lemma_jview_members(l.drop_first());
    }
}

impl View for Json {
    type V = JsonV;

    open spec fn view(&self) -> JsonV {
        jview(*self)
    }
}

// ---------------------------------------------------------------------------
// Specification-level parser
// ---------------------------------------------------------------------------

/// JSON insignificant whitespace.
pub open spec fn is_ws(c: char) -> bool {
    c == ' ' || c == '\t' || c == '\n' || c == '\r'
}

/// ASCII decimal digit.
pub open spec fn is_digit(c: char) -> bool {
    '0' <= c && c <= '9'
}

/// First index at or after `i` holding a non-whitespace character.
pub open spec fn spec_skip_ws(s: Seq<char>, i: int) -> int
    decreases s.len() - i,
{
    if 0 <= i && i < s.len() && is_ws(s[i]) {
        spec_skip_ws(s, i + 1)
    } else {
        i
    }
}

/// The character a single-character escape stands for, if recognized.
pub open spec fn simple_escape(c: char) -> Option<char> {
    if c == '"' {
        Some('"')
    } else if c == '\\' {
        Some('\\')
    } else if c == '/' {
        Some('/')
    } else if c == 'b' {
        Some('\u{0008}')
    } else if c == 'f' {
        Some('\u{000C}')
    } else if c == 'n' {
        Some('\n')
    } else if c == 'r' {
        Some('\r')
    } else if c == 't' {
        Some('\t')
    } else {
        None
    }
}

/// Value of a hexadecimal digit.
pub open spec fn hex_val(c: char) -> Option<u32> {
    if '0' <= c && c <= '9' {
        Some((c as u32 - '0' as u32) as u32)
    } else if 'a' <= c && c <= 'f' {
        Some((c as u32 - 'a' as u32 + 10) as u32)
    } else if 'A' <= c && c <= 'F' {
        Some((c as u32 - 'A' as u32 + 10) as u32)
    } else {
        None
    }
}

/// Value of the four hexadecimal digits at `i`.
pub open spec fn spec_hex4(s: Seq<char>, i: int) -> Option<u32> {
    if i < 0 || i + 4 > s.len() {
        None
    } else {
        match (hex_val(s[i]), hex_val(s[i + 1]), hex_val(s[i + 2]), hex_val(s[i + 3])) {
            (Some(a), Some(b), Some(c), Some(d)) => Some(
                (a * 0x1000 + b * 0x100 + c * 0x10 + d) as u32,
            ),
            _ => None,
        }
    }
}

/// Parse the body of a JSON string starting just after the opening quote:
/// the decoded characters and the index just past the closing quote.
///
/// Control characters must be escaped; `\uXXXX` escapes are decoded, with
/// surrogate pairs combined and lone surrogates rejected.
pub open spec fn spec_str_body(s: Seq<char>, i: int) -> Option<(Seq<char>, int)>
    decreases s.len() - i,
{
    if i < 0 || i >= s.len() {
        None
    } else if s[i] == '"' {
        Some((Seq::empty(), i + 1))
    } else if s[i] == '\\' {
        if i + 1 >= s.len() {
            None
        } else if s[i + 1] == 'u' {
            match spec_hex4(s, i + 2) {
                None => None,
                Some(u) => {
                    if 0xD800 <= u && u < 0xDC00 {
                        if s.len() - i >= 12 && s[i + 6] == '\\' && s[i + 7] == 'u' {
                            match spec_hex4(s, i + 8) {
                                None => None,
                                Some(lo) => {
                                    if 0xDC00 <= lo && lo < 0xE000 {
                                        let cp = (0x10000 + (u - 0xD800) * 0x400 + (lo
                                            - 0xDC00)) as u32;
                                        match spec_str_body(s, i + 12) {
                                            Some((t, j)) => Some((seq![cp as char] + t, j)),
                                            None => None,
                                        }
                                    } else {
                                        None
                                    }
                                },
                            }
                        } else {
                            None
                        }
                    } else if 0xDC00 <= u && u < 0xE000 {
                        None
                    } else {
                        match spec_str_body(s, i + 6) {
                            Some((t, j)) => Some((seq![u as char] + t, j)),
                            None => None,
                        }
                    }
                },
            }
        } else {
            match simple_escape(s[i + 1]) {
                None => None,
                Some(c) => match spec_str_body(s, i + 2) {
                    Some((t, j)) => Some((seq![c] + t, j)),
                    None => None,
                },
            }
        }
    } else if (s[i] as u32) < 0x20 {
        None
    } else {
        match spec_str_body(s, i + 1) {
            Some((t, j)) => Some((seq![s[i]] + t, j)),
            None => None,
        }
    }
}

/// First index at or after `i` holding a non-digit character.
pub open spec fn spec_digits_end(s: Seq<char>, i: int) -> int
    decreases s.len() - i,
{
    if 0 <= i && i < s.len() && is_digit(s[i]) {
        spec_digits_end(s, i + 1)
    } else {
        i
    }
}

/// End of the optional fraction part starting at `j`.
pub open spec fn spec_frac_end(s: Seq<char>, j: int) -> Option<int> {
    if 0 <= j && j < s.len() && s[j] == '.' {
        let f = spec_digits_end(s, j + 1);
        if f == j + 1 {
            None
        } else {
            Some(f)
        }
    } else {
        Some(j)
    }
}

/// End of the optional exponent part starting at `j`.
pub open spec fn spec_exp_end(s: Seq<char>, j: int) -> Option<int> {
    if 0 <= j && j < s.len() && (s[j] == 'e' || s[j] == 'E') {
        let k = if j + 1 < s.len() && (s[j + 1] == '+' || s[j + 1] == '-') {
            j + 2
        } else {
            j + 1
        };
        let e = spec_digits_end(s, k);
        if e == k {
            None
        } else {
            Some(e)
        }
    } else {
        Some(j)
    }
}

/// End of the JSON number starting at `i` (sign, digits, fraction, exponent).
pub open spec fn spec_number_end(s: Seq<char>, i: int) -> Option<int> {
    let j0 = if 0 <= i && i < s.len() && s[i] == '-' {
        i + 1
    } else {
        i
    };
    let j1 = spec_digits_end(s, j0);
    if j1 == j0 {
        None
    } else {
        match spec_frac_end(s, j1) {
            None => None,
            Some(j2) => spec_exp_end(s, j2),
        }
    }
}

/// Parse one JSON value starting exactly at `i` (no leading whitespace):
/// the value and the index just past it.  `depth` bounds bracket nesting.
pub open spec fn spec_value(s: Seq<char>, i: int, depth: nat) -> Option<(JsonV, int)>
    decreases s.len() - i, 1int,
{
    if i < 0 || i >= s.len() {
        None
    } else {
        let c = s[i];
        if c == 'n' {
            if i + 4 <= s.len() && s[i + 1] == 'u' && s[i + 2] == 'l' && s[i + 3] == 'l' {
                Some((JsonV::Null, i + 4))
            } else {
                None
            }
        } else if c == 't' {
            if i + 4 <= s.len() && s[i + 1] == 'r' && s[i + 2] == 'u' && s[i + 3] == 'e' {
                Some((JsonV::Bool(true), i + 4))
            } else {
                None
            }
        } else if c == 'f' {
            if i + 5 <= s.len() && s[i + 1] == 'a' && s[i + 2] == 'l' && s[i + 3] == 's' && s[i
                + 4] == 'e' {
                Some((JsonV::Bool(false), i + 5))
            } else {
                None
            }
        } else if c == '"' {
            match spec_str_body(s, i + 1) {
                Some((t, j)) => Some((JsonV::Str(t), j)),
                None => None,
            }
        } else if c == '[' {
            if depth == 0 {
                None
            } else {
                let j = spec_skip_ws(s, i + 1);
                if j < i + 1 || j > s.len() {
                    None
                } else if j < s.len() && s[j] == ']' {
                    Some((JsonV::Arr(Seq::empty()), j + 1))
                } else {
                    match spec_items(s, j, (depth - 1) as nat) {
                        Some((elems, k)) => Some((JsonV::Arr(elems), k)),
                        None => None,
                    }
                }
            }
        } else if c == '{' {
            if depth == 0 {
                None
            } else {
                let j = spec_skip_ws(s, i + 1);
                if j < i + 1 || j > s.len() {
                    None
                } else if j < s.len() && s[j] == '}' {
                    Some((JsonV::Obj(Seq::empty()), j + 1))
                } else {
                    match spec_members(s, j, (depth - 1) as nat) {
                        Some((members, k)) => Some((JsonV::Obj(members), k)),
                        None => None,
                    }
                }
            }
        } else if c == '-' || is_digit(c) {
            match spec_number_end(s, i) {
                Some(e) => Some((JsonV::Num(s.subrange(i, e)), e)),
                None => None,
            }
        } else {
            None
        }
    }
}

/// Parse one or more array items starting at `i` (whitespace allowed),
/// up to and including the closing bracket.
pub open spec fn spec_items(s: Seq<char>, i: int, depth: nat) -> Option<(Seq<JsonV>, int)>
    decreases s.len() - i, 2int,
{
    if i < 0 || i > s.len() {
        None
    } else {
        let j = spec_skip_ws(s, i);
        if j < i || j > s.len() {
            None
        } else {
            match spec_value(s, j, depth) {
                None => None,
                Some((v, k)) => {
                    if k <= j || k > s.len() {
                        None
                    } else {
                        let m = spec_skip_ws(s, k);
                        if m < k || m >= s.len() {
                            None
                        } else if s[m] == ',' {
                            match spec_items(s, m + 1, depth) {
                                None => None,
                                Some((rest, e)) => Some((seq![v] + rest, e)),
                            }
                        } else if s[m] == ']' {
                            Some((seq![v], m + 1))
                        } else {
                            None
                        }
                    }
                },
            }
        }
    }
}

/// Parse one or more object members starting at `i` (whitespace allowed),
/// up to and including the closing brace.
pub open spec fn spec_members(s: Seq<char>, i: int, depth: nat) -> Option<
    (Seq<(Seq<char>, JsonV)>, int),
>
    decreases s.len() - i, 2int,
{
    if i < 0 || i > s.len() {
        None
    } else {
        let j = spec_skip_ws(s, i);
        if j < i || j >= s.len() {
            None
        } else if s[j] != '"' {
            None
        } else {
            match spec_str_body(s, j + 1) {
                None => None,
                Some((key, k)) => {
                    if k <= j || k > s.len() {
                        None
                    } else {
                        let m = spec_skip_ws(s, k);
                        if m < k || m >= s.len() {
                            None
                        } else if s[m] != ':' {
                            None
                        } else {
                            let v0 = spec_skip_ws(s, m + 1);
                            if v0 < m + 1 || v0 > s.len() {
                                None
                            } else {
                            match spec_value(s, v0, depth) {
                                None => None,
                                Some((v, p)) => {
                                    if p <= m || p > s.len() {
                                        None
                                    } else {
                                        let q = spec_skip_ws(s, p);
                                        if q < p || q >= s.len() {
                                            None
                                        } else if s[q] == ',' {
                                            match spec_members(s, q + 1, depth) {
                                                None => None,
                                                Some((rest, e)) => Some(
                                                    (seq![(key, v)] + rest, e),
                                                ),
                                            }
                                        } else if s[q] == '}' {
                                            Some((seq![(key, v)], q + 1))
                                        } else {
                                            None
                                        }
                                    }
                                },
                            }
                            }
                        }
                    }
                },
            }
        }
    }
}

/// Parse a whole line as one JSON value: leading and trailing whitespace is
/// allowed, anything else after the value is not.
pub open spec fn spec_parse_line(s: Seq<char>) -> Option<JsonV> {
    let i = spec_skip_ws(s, 0);
    match spec_value(s, i, MAX_DEPTH as nat) {
        Some((j, k)) => if spec_skip_ws(s, k) == s.len() {
            Some(j)
        } else {
            None
        },
        None => None,
    }
}

// ---------------------------------------------------------------------------
// Executable parser
// ---------------------------------------------------------------------------

/// Relies on `char::from_u32`: it returns `Some` exactly for Unicode scalar
/// values (below the surrogate range, or above it and at most `0x10FFFF`),
/// and the returned character is that code point.
#[verifier::external_body]
fn char_from_u32(u: u32) -> (r: Option<char>)
    ensures
        r is Some <==> (u < 0xD800 || (0xE000 <= u && u <= 0x10FFFF)),
        r is Some ==> r == Some(u as char),
{
    char::from_u32(u)
}

/// First index at or after `i` holding a non-whitespace character.
pub fn skip_ws(s: &Vec<char>, i: usize) -> (r: usize)
    requires
        i <= s@.len(),
    ensures
        r == spec_skip_ws(s@, i as int),
        i <= r <= s@.len(),
{
    let mut j = i;
    while j < s.len() && (s[j] == ' ' || s[j] == '\t' || s[j] == '\n' || s[j] == '\r')
        invariant
            i <= j <= s@.len(),
            spec_skip_ws(s@, i as int) == spec_skip_ws(s@, j as int),
        decreases s@.len() - j,
    {
        assert(spec_skip_ws(s@, j as int) == spec_skip_ws(s@, j + 1));
        j += 1;
    }
    assert(spec_skip_ws(s@, j as int) == j as int);
    j
}

/// First index at or after `i` holding a non-digit character.
fn digits_end(s: &Vec<char>, i: usize) -> (r: usize)
    requires
        i <= s@.len(),
    ensures
        r == spec_digits_end(s@, i as int),
        i <= r <= s@.len(),
{
    let mut j = i;
    while j < s.len() && '0' <= s[j] && s[j] <= '9'
        invariant
            i <= j <= s@.len(),
            spec_digits_end(s@, i as int) == spec_digits_end(s@, j as int),
        decreases s@.len() - j,
    {
        assert(spec_digits_end(s@, j as int) == spec_digits_end(s@, j + 1));
        j += 1;
    }
    assert(spec_digits_end(s@, j as int) == j as int);
    j
}

/// Value of one hexadecimal digit.
fn hex_digit(c: char) -> (r: Option<u32>)
    ensures
        r == hex_val(c),
{
    if '0' <= c && c <= '9' {
        Some(c as u32 - '0' as u32)
    } else if 'a' <= c && c <= 'f' {
        Some(c as u32 - 'a' as u32 + 10)
    } else if 'A' <= c && c <= 'F' {
        Some(c as u32 - 'A' as u32 + 10)
    } else {
        None
    }
}

/// Value of the four hexadecimal digits at `i`.
fn hex4(s: &Vec<char>, i: usize) -> (r: Option<u32>)
    ensures
        r == spec_hex4(s@, i as int),
        r is Some ==> r->0 <= 0xFFFF,
{
    if i >= s.len() || s.len() - i < 4 {
        return None;
    }
    match (hex_digit(s[i]), hex_digit(s[i + 1]), hex_digit(s[i + 2]), hex_digit(s[i + 3])) {
        (Some(a), Some(b), Some(c), Some(d)) => Some(a * 0x1000 + b * 0x100 + c * 0x10 + d),
        _ => None,
    }
}

/// Prefix the decoded characters of a string-body parse with `acc`.
pub open spec fn sb_combine(acc: Seq<char>, r: Option<(Seq<char>, int)>) -> Option<
    (Seq<char>, int),
> {
    match r {
        None => None,
        Some((t, j)) => Some((acc + t, j)),
    }
}

/// One decoding step folds into the accumulator.
proof fn lemma_sb_step(acc: Seq<char>, c: char, s: Seq<char>, i: int, i2: int)
    requires
        spec_str_body(s, i) == sb_combine(seq![c], spec_str_body(s, i2)),
    ensures
        sb_combine(acc.push(c), spec_str_body(s, i2)) == sb_combine(acc, spec_str_body(s, i)),
{
    match spec_str_body(s, i2) {
        None => {},
        Some((t, j)) => {
            assert(acc.push(c) =~= acc + seq![c]);
            assert((acc + seq![c]) + t =~= acc + (seq![c] + t));
        },
    }
}

/// Parse a JSON string body starting just after the opening quote.
#[verifier::rlimit(60)]
fn parse_string_body(s: &Vec<char>, start: usize) -> (r: Option<(Vec<char>, usize)>)
    requires
        start <= s@.len(),
    ensures
        (match r {
            None => spec_str_body(s@, start as int) is None,
            Some((t, j)) => spec_str_body(s@, start as int) == Some((t@, j as int)) && start < j
                <= s@.len(),
        }),
{
    let mut acc: Vec<char> = Vec::new();
    let mut i = start;
    proof {
        match spec_str_body(s@, start as int) {
            Some((t, _j)) => {
                assert(Seq::<char>::empty() + t =~= t);
            },
            None => {},
        }
    }
    loop
        invariant
            start <= i <= s@.len(),
            sb_combine(acc@, spec_str_body(s@, i as int)) == spec_str_body(s@, start as int),
        decreases s@.len() - i,
    {
        if i >= s.len() {
            assert(spec_str_body(s@, i as int) is None);
            return None;
        }
        let c = s[i];
        if c == '"' {
            proof {
                assert(spec_str_body(s@, i as int) == Some((Seq::<char>::empty(), i + 1)));
                assert(acc@ + Seq::<char>::empty() =~= acc@);
            }
            return Some((acc, i + 1));
        } else if c == '\\' {
            if i + 1 >= s.len() {
                assert(spec_str_body(s@, i as int) is None);
                return None;
            }
            let e = s[i + 1];
            if e == 'u' {
                let hi = match hex4(s, i + 2) {
                    None => {
                        return None;
                    },
                    Some(u) => u,
                };
                if 0xD800 <= hi && hi < 0xDC00 {
                    if s.len() - i >= 12 && s[i + 6] == '\\' && s[i + 7] == 'u' {
                        let lo = match hex4(s, i + 8) {
                            None => {
                                return None;
                            },
                            Some(u) => u,
                        };
                        if 0xDC00 <= lo && lo < 0xE000 {
                            let cp: u32 = 0x10000 + (hi - 0xD800) * 0x400 + (lo - 0xDC00);
                            let ch = match char_from_u32(cp) {
                                Some(ch) => ch,
                                None => {
                                    // unreachable: cp is a valid scalar value
                                    return None;
                                },
                            };
                            proof {
                                assert(spec_str_body(s@, i as int) == sb_combine(
                                    seq![ch],
                                    spec_str_body(s@, i + 12),
                                ));
                                lemma_sb_step(acc@, ch, s@, i as int, i + 12);
                            }
                            acc.push(ch);
                            i += 12;
                        } else {
                            return None;
                        }
                    } else {
                        return None;
                    }
                } else if 0xDC00 <= hi && hi < 0xE000 {
                    return None;
                } else {
                    let ch = match char_from_u32(hi) {
                        Some(ch) => ch,
                        None => {
                            // unreachable: hi is below the surrogate range
                            return None;
                        },
                    };
                    proof {
                        assert(spec_str_body(s@, i as int) == sb_combine(
                            seq![ch],
                            spec_str_body(s@, i + 6),
                        ));
                        lemma_sb_step(acc@, ch, s@, i as int, i + 6);
                    }
                    acc.push(ch);
                    i += 6;
                }
            } else {
                let dec = match e {
                    '"' => '"',
                    '\\' => '\\',
                    '/' => '/',
                    'b' => '\u{0008}',
                    'f' => '\u{000C}',
                    'n' => '\n',
                    'r' => '\r',
                    't' => '\t',
                    _ => {
                        assert(simple_escape(s@[i + 1]) is None);
                        return None;
                    },
                };
                proof {
                    assert(simple_escape(s@[i + 1]) == Some(dec));
                    assert(spec_str_body(s@, i as int) == sb_combine(
                        seq![dec],
                        spec_str_body(s@, i + 2),
                    ));
                    lemma_sb_step(acc@, dec, s@, i as int, i + 2);
                }
                acc.push(dec);
                i += 2;
            }
        } else if (c as u32) < 0x20 {
            assert(spec_str_body(s@, i as int) is None);
            return None;
        } else {
            proof {
                assert(spec_str_body(s@, i as int) == sb_combine(
                    seq![c],
                    spec_str_body(s@, i + 1),
                ));
                lemma_sb_step(acc@, c, s@, i as int, i + 1);
            }
            acc.push(c);
            i += 1;
        }
    }
}

/// End of the JSON number starting at `i`, mirroring [`spec_number_end`].
fn number_end(s: &Vec<char>, i: usize) -> (r: Option<usize>)
    requires
        i <= s@.len(),
    ensures
        (match r {
            None => spec_number_end(s@, i as int) is None,
            Some(e) => spec_number_end(s@, i as int) == Some(e as int) && i < e <= s@.len(),
        }),
{
    let j0 = if i < s.len() && s[i] == '-' {
        i + 1
    } else {
        i
    };
    let j1 = digits_end(s, j0);
    if j1 == j0 {
        return None;
    }
    let j2 = if j1 < s.len() && s[j1] == '.' {
        let f = digits_end(s, j1 + 1);
        if f == j1 + 1 {
            return None;
        }
        f
    } else {
        j1
    };
    assert(spec_frac_end(s@, j1 as int) == Some(j2 as int));
    if j2 < s.len() && (s[j2] == 'e' || s[j2] == 'E') {
        let k = if j2 + 1 < s.len() && (s[j2 + 1] == '+' || s[j2 + 1] == '-') {
            j2 + 2
        } else {
            j2 + 1
        };
        let e = digits_end(s, k);
        if e == k {
            return None;
        }
        assert(spec_exp_end(s@, j2 as int) == Some(e as int));
        Some(e)
    } else {
        assert(spec_exp_end(s@, j2 as int) == Some(j2 as int));
        Some(j2)
    }
}

/// Parse one JSON value starting exactly at `i`, mirroring [`spec_value`].
fn parse_value(s: &Vec<char>, i: usize, depth: u32) -> (r: Option<(Json, usize)>)
    requires
        i <= s@.len(),
    ensures
        (match r {
            None => spec_value(s@, i as int, depth as nat) is None,
            Some((v, k)) => spec_value(s@, i as int, depth as nat) == Some((jview(v), k as int))
                && i < k <= s@.len(),
        }),
    decreases s@.len() - i, 1int,
{
    if i >= s.len() {
        return None;
    }
    let c = s[i];
    if c == 'n' {
        if s.len() - i >= 4 && s[i + 1] == 'u' && s[i + 2] == 'l' && s[i + 3] == 'l' {
            Some((Json::Null, i + 4))
        } else {
            None
        }
    } else if c == 't' {
        if s.len() - i >= 4 && s[i + 1] == 'r' && s[i + 2] == 'u' && s[i + 3] == 'e' {
            Some((Json::Bool(true), i + 4))
        } else {
            None
        }
    } else if c == 'f' {
        if s.len() - i >= 5 && s[i + 1] == 'a' && s[i + 2] == 'l' && s[i + 3] == 's' && s[i + 4]
            == 'e' {
            Some((Json::Bool(false), i + 5))
        } else {
            None
        }
    } else if c == '"' {
        match parse_string_body(s, i + 1) {
            Some((t, j)) => Some((Json::Str(t), j)),
            None => None,
        }
    } else if c == '[' {
        if depth == 0 {
            return None;
        }
        let j = skip_ws(s, i + 1);
        if j < s.len() && s[j] == ']' {
            let out = Json::Arr(Vec::new());
            assert(jview_seq(Seq::<Json>::empty()) =~= Seq::<JsonV>::empty());
            Some((out, j + 1))
        } else {
            match parse_items(s, j, depth - 1) {
                Some((elems, k)) => Some((Json::Arr(elems), k)),
                None => None,
            }
        }
    } else if c == '{' {
        if depth == 0 {
            return None;
        }
        let j = skip_ws(s, i + 1);
        if j < s.len() && s[j] == '}' {
            let out = Json::Obj(Vec::new());
            assert(jview_members(Seq::<(Vec<char>, Json)>::empty()) =~= Seq::<
                (Seq<char>, JsonV),
            >::empty());
            Some((out, j + 1))
        } else {
            match parse_members(s, j, depth - 1) {
                Some((members, k)) => Some((Json::Obj(members), k)),
                None => None,
            }
        }
    } else if c == '-' || ('0' <= c && c <= '9') {
        match number_end(s, i) {
            Some(e) => {
                let t = crate::text::subvec(s, i, e);
                Some((Json::Num(t), e))
            },
            None => None,
        }
    } else {
        None
    }
}

/// Parse array items up to the closing bracket, mirroring [`spec_items`].
fn parse_items(s: &Vec<char>, i: usize, depth: u32) -> (r: Option<(Vec<Json>, usize)>)
    requires
        i <= s@.len(),
    ensures
        (match r {
            None => spec_items(s@, i as int, depth as nat) is None,
            Some((vs, k)) => spec_items(s@, i as int, depth as nat) == Some(
                (jview_seq(vs@), k as int),
            ) && i < k <= s@.len(),
        }),
    decreases s@.len() - i, 2int,
{
    let j = skip_ws(s, i);
    let (v, k) = match parse_value(s, j, depth) {
        None => {
            return None;
        },
        Some(p) => p,
    };
    let m = skip_ws(s, k);
    if m >= s.len() {
        return None;
    }
    if s[m] == ',' {
        match parse_items(s, m + 1, depth) {
            None => None,
            Some((rest, e)) => {
                let mut out: Vec<Json> = Vec::new();
                out.push(v);
                let mut rest = rest;
                let ghost rest0 = rest@;
                out.append(&mut rest);
                proof {
                    assert(out@ =~= seq![v] + rest0);
                    assert(out@.drop_first() =~= rest0);
                    assert(jview_seq(out@) =~= seq![jview(v)] + jview_seq(rest0));
                }
                Some((out, e))
            },
        }
    } else if s[m] == ']' {
        let ghost vv = jview(v);
        let mut out: Vec<Json> = Vec::new();
        out.push(v);
        proof {
            assert(out@.len() == 1 && out@[0] == v);
            assert(out@.drop_first() =~= Seq::<Json>::empty());
            assert(jview_seq(Seq::<Json>::empty()) =~= Seq::<JsonV>::empty());
            assert(jview_seq(out@) =~= seq![vv]);
        }
        Some((out, m + 1))
    } else {
        None
    }
}

/// Parse object members up to the closing brace, mirroring [`spec_members`].
fn parse_members(s: &Vec<char>, i: usize, depth: u32) -> (r: Option<
    (Vec<(Vec<char>, Json)>, usize),
>)
    requires
        i <= s@.len(),
    ensures
        (match r {
            None => spec_members(s@, i as int, depth as nat) is None,
            Some((ms, k)) => spec_members(s@, i as int, depth as nat) == Some(
                (jview_members(ms@), k as int),
            ) && i < k <= s@.len(),
        }),
    decreases s@.len() - i, 2int,
{
    let j = skip_ws(s, i);
    if j >= s.len() {
        return None;
    }
    if s[j] != '"' {
        return None;
    }
    let (key, k) = match parse_string_body(s, j + 1) {
        None => {
            return None;
        },
        Some(p) => p,
    };
    let m = skip_ws(s, k);
    if m >= s.len() {
        return None;
    }
    if s[m] != ':' {
        return None;
    }
    let v0 = skip_ws(s, m + 1);
    let (v, p) = match parse_value(s, v0, depth) {
        None => {
            return None;
        },
        Some(p) => p,
    };
    let q = skip_ws(s, p);
    if q >= s.len() {
        return None;
    }
    if s[q] == ',' {
        match parse_members(s, q + 1, depth) {
            None => None,
            Some((rest, e)) => {
                let mut out: Vec<(Vec<char>, Json)> = Vec::new();
                let ghost keyv = key@;
                let ghost vv = jview(v);
                out.push((key, v));
                let mut rest = rest;
                let ghost rest0 = rest@;
                out.append(&mut rest);
                proof {
                    assert(out@.drop_first() =~= rest0);
                    assert(jview_members(out@) =~= seq![(keyv, vv)] + jview_members(rest0));
                }
                Some((out, e))
            },
        }
    } else if s[q] == '}' {
        let mut out: Vec<(Vec<char>, Json)> = Vec::new();
        let ghost keyv = key@;
        let ghost vv = jview(v);
        out.push((key, v));
        proof {
            assert(out@.len() == 1 && out@[0].0@ == keyv && jview(out@[0].1) == vv);
            assert(out@.drop_first() =~= Seq::<(Vec<char>, Json)>::empty());
            assert(jview_members(Seq::<(Vec<char>, Json)>::empty()) =~= Seq::<
                (Seq<char>, JsonV),
            >::empty());
            assert(jview_members(out@) =~= seq![(keyv, vv)]);
        }
        Some((out, q + 1))
    } else {
        None
    }
}

/// Parse a whole line as one JSON value.
pub fn parse_json_line(s: &str) -> (r: Option<Json>)
    ensures
        (match r {
            None => spec_parse_line(s@) is None,
            Some(j) => spec_parse_line(s@) == Some(jview(j)),
        }),
{
    let chars = str_to_chars(s);
    let i = skip_ws(&chars, 0);
    match parse_value(&chars, i, MAX_DEPTH) {
        None => None,
        Some((j, k)) => {
            let e = skip_ws(&chars, k);
            if e == chars.len() {
                Some(j)
            } else {
                None
            }
        },
    }
}

// ---------------------------------------------------------------------------
// Event classification
// ---------------------------------------------------------------------------

/// One decoded line of subprocess output, classified.
///
/// Any line that is not valid JSON, or whose `type` field is missing or
/// unrecognized, is `Other`: protocol noise, never fatal.  The session
/// identity (`session_id`) may ride on any event, so every variant carries it.
pub enum ParsedEvent {
    /// `system` event with `subtype == "init"`: handshake completion marker.
    Init { identity: Option<String> },
    /// `assistant` event carrying text: the last text block of its content.
    AssistantText { text: String, identity: Option<String> },
    /// Terminal `result` event without `is_error`: `text` is its `result`
    /// string, if present.
    ResultOk { text: Option<String>, identity: Option<String> },
    /// Terminal `result` event with `is_error: true`.
    ResultError { message: String, identity: Option<String> },
    /// Anything else, including unparseable lines.
    Other { identity: Option<String> },
}

/// Specification-level decoded event.
pub enum ParsedEventV {
    Init { identity: Option<Seq<char>> },
    AssistantText { text: Seq<char>, identity: Option<Seq<char>> },
    ResultOk { text: Option<Seq<char>>, identity: Option<Seq<char>> },
    ResultError { message: Seq<char>, identity: Option<Seq<char>> },
    Other { identity: Option<Seq<char>> },
}

/// The model of a decoded event.
pub open spec fn event_view(e: ParsedEvent) -> ParsedEventV {
    match e {
        ParsedEvent::Init { identity } => ParsedEventV::Init { identity: identity.deep_view() },
        ParsedEvent::AssistantText { text, identity } => ParsedEventV::AssistantText {
            text: text@,
            identity: identity.deep_view(),
        },
        ParsedEvent::ResultOk { text, identity } => ParsedEventV::ResultOk {
            text: text.deep_view(),
            identity: identity.deep_view(),
        },
        ParsedEvent::ResultError { message, identity } => ParsedEventV::ResultError {
            message: message@,
            identity: identity.deep_view(),
        },
        ParsedEvent::Other { identity } => ParsedEventV::Other { identity: identity.deep_view() },
    }
}

impl View for ParsedEvent {
    type V = ParsedEventV;

    open spec fn view(&self) -> ParsedEventV {
        event_view(*self)
    }
}

impl ParsedEvent {
    /// The identity carried by the event, whatever its variant.
    pub fn identity(&self) -> (r: &Option<String>)
        ensures
            r.deep_view() == spec_event_identity(self@),
    {
        match self {
            ParsedEvent::Init { identity } => identity,
            ParsedEvent::AssistantText { identity, .. } => identity,
            ParsedEvent::ResultOk { identity, .. } => identity,
            ParsedEvent::ResultError { identity, .. } => identity,
            ParsedEvent::Other { identity } => identity,
        }
    }
}

/// The identity carried by an event, whatever its variant.
pub open spec fn spec_event_identity(e: ParsedEventV) -> Option<Seq<char>> {
    match e {
        ParsedEventV::Init { identity } => identity,
        ParsedEventV::AssistantText { identity, .. } => identity,
        ParsedEventV::ResultOk { identity, .. } => identity,
        ParsedEventV::ResultError { identity, .. } => identity,
        ParsedEventV::Other { identity } => identity,
    }
}

/// Last member with the given key, searching positions `0 ..= i`.
/// JSON objects with repeated keys keep the last occurrence.
pub open spec fn lookup_back(ms: Seq<(Seq<char>, JsonV)>, key: Seq<char>, i: int) -> Option<
    JsonV,
>
    decreases i + 1,
{
    if i < 0 || i >= ms.len() {
        None
    } else if ms[i].0 == key {
        Some(ms[i].1)
    } else {
        lookup_back(ms, key, i - 1)
    }
}

/// The member value under `key`, if `j` is an object holding it.
pub open spec fn obj_lookup(j: JsonV, key: Seq<char>) -> Option<JsonV> {
    match j {
        JsonV::Obj(ms) => lookup_back(ms, key, ms.len() - 1),
        _ => None,
    }
}

/// The string under `key`, if `j` is an object holding a string there.
pub open spec fn str_field(j: JsonV, key: Seq<char>) -> Option<Seq<char>> {
    match obj_lookup(j, key) {
        Some(JsonV::Str(t)) => Some(t),
        _ => None,
    }
}

/// The boolean under `key`, if `j` is an object holding a boolean there.
pub open spec fn bool_field(j: JsonV, key: Seq<char>) -> Option<bool> {
    match obj_lookup(j, key) {
        Some(JsonV::Bool(b)) => Some(b),
        _ => None,
    }
}

/// The last content block in positions `0 ..= i` that is a text block,
/// giving its text.
pub open spec fn blocks_text_back(blocks: Seq<JsonV>, i: int) -> Option<Seq<char>>
    decreases i + 1,
{
    if i < 0 || i >= blocks.len() {
        None
    } else if str_field(blocks[i], "type"@) == Some("text"@) && str_field(blocks[i], "text"@)
        is Some {
        str_field(blocks[i], "text"@)
    } else {
        blocks_text_back(blocks, i - 1)
    }
}

/// The text an `assistant` event carries: the last text block under
/// `message.content`.
pub open spec fn spec_assistant_text(j: JsonV) -> Option<Seq<char>> {
    match obj_lookup(j, "message"@) {
        Some(m) => match obj_lookup(m, "content"@) {
            Some(JsonV::Arr(blocks)) => blocks_text_back(blocks, blocks.len() - 1),
            _ => None,
        },
        _ => None,
    }
}

/// Classify one parsed JSON value as a protocol event.
pub open spec fn spec_classify(j: JsonV) -> ParsedEventV {
    let identity = str_field(j, "session_id"@);
    match str_field(j, "type"@) {
        Some(t) => if t == "system"@ {
            if str_field(j, "subtype"@) == Some("init"@) {
                ParsedEventV::Init { identity }
            } else {
                ParsedEventV::Other { identity }
            }
        } else if t == "assistant"@ {
            match spec_assistant_text(j) {
                Some(tx) => ParsedEventV::AssistantText { text: tx, identity },
                None => ParsedEventV::Other { identity },
            }
        } else if t == "result"@ {
            if bool_field(j, "is_error"@) == Some(true) {
                ParsedEventV::ResultError {
                    message: match str_field(j, "error"@) {
                        Some(m) => m,
                        None => "Unknown error"@,
                    },
                    identity,
                }
            } else {
                ParsedEventV::ResultOk { text: str_field(j, "result"@), identity }
            }
        } else {
            ParsedEventV::Other { identity }
        },
        None => ParsedEventV::Other { identity },
    }
}

/// Decode one line of subprocess output.
pub open spec fn spec_decode_line(line: Seq<char>) -> ParsedEventV {
    match spec_parse_line(line) {
        Some(j) => spec_classify(j),
        None => ParsedEventV::Other { identity: None },
    }
}

/// Last member with the given key, by descending scan.
fn find_member<'a>(members: &'a Vec<(Vec<char>, Json)>, key: &str) -> (r: Option<&'a Json>)
    ensures
        jview_members(members@).len() == members@.len(),
        (match r {
            None => lookup_back(jview_members(members@), key@, members@.len() - 1) is None,
            Some(v) => lookup_back(jview_members(members@), key@, members@.len() - 1) == Some(
                jview(*v),
            ),
        }),
{
    proof {
        lemma_jview_members(members@);
    }
    let mut i = members.len();
    while i > 0
        invariant
            i <= members@.len(),
            jview_members(members@).len() == members@.len(),
            forall|k: int|
                0 <= k < members@.len() ==> jview_members(members@)[k] == (
                members@[k].0@,
                jview(members@[k].1),
                ),
            lookup_back(jview_members(members@), key@, members@.len() - 1) == lookup_back(
                jview_members(members@),
                key@,
                i as int - 1,
            ),
        decreases i,
    {
        i -= 1;
        if crate::text::chars_eq_str(&members[i].0, key) {
            let m = &members[i];
            return Some(&m.1);
        }
    }
    None
}

/// The string under `key`, if `j` is an object holding a string there.
pub fn get_str_field(j: &Json, key: &str) -> (r: Option<String>)
    ensures
        r.deep_view() == str_field(jview(*j), key@),
{
    match j {
        Json::Obj(ms) => {
            assert(jview(*j) == JsonV::Obj(jview_members(ms@)));
            match find_member(ms, key) {
                Some(v) => match v {
                    Json::Str(t) => {
                        assert(jview(*v) == JsonV::Str(t@));
                        assert(str_field(jview(*j), key@) == Some(t@));
                        let out = Some(chars_to_string(t));
                        assert(out.deep_view() == Some(t@));
                        out
                    },
                    _ => None,
                },
                None => None,
            }
        },
        _ => None,
    }
}

/// The boolean under `key`, if `j` is an object holding a boolean there.
pub fn get_bool_field(j: &Json, key: &str) -> (r: Option<bool>)
    ensures
        r == bool_field(jview(*j), key@),
{
    match j {
        Json::Obj(ms) => {
            assert(jview(*j) == JsonV::Obj(jview_members(ms@)));
            match find_member(ms, key) {
                Some(v) => match v {
                    Json::Bool(b) => Some(*b),
                    _ => None,
                },
                None => None,
            }
        },
        _ => None,
    }
}

/// The text an `assistant` event carries, if any.
fn assistant_text(j: &Json) -> (r: Option<String>)
    ensures
        r.deep_view() == spec_assistant_text(jview(*j)),
{
    let msg = match j {
        Json::Obj(ms) => {
            assert(jview(*j) == JsonV::Obj(jview_members(ms@)));
            match find_member(ms, "message") {
                Some(v) => v,
                None => {
                    return None;
                },
            }
        },
        _ => {
            return None;
        },
    };
    assert(obj_lookup(jview(*j), "message"@) == Some(jview(*msg)));
    let blocks = match msg {
        Json::Obj(ms2) => {
            assert(jview(*msg) == JsonV::Obj(jview_members(ms2@)));
            match find_member(ms2, "content") {
                Some(v) => match v {
                    Json::Arr(blocks) => {
                        assert(jview(*v) == JsonV::Arr(jview_seq(blocks@)));
                        blocks
                    },
                    _ => {
                        return None;
                    },
                },
                None => {
                    return None;
                },
            }
        },
        _ => {
            return None;
        },
    };
    proof {
        lemma_jview_seq(blocks@);
    }
    assert(spec_assistant_text(jview(*j)) == blocks_text_back(
        jview_seq(blocks@),
        blocks@.len() - 1,
    ));
    let mut i = blocks.len();
    while i > 0
        invariant
            i <= blocks@.len(),
            spec_assistant_text(jview(*j)) == blocks_text_back(
                jview_seq(blocks@),
                blocks@.len() - 1,
            ),
            jview_seq(blocks@).len() == blocks@.len(),
            forall|k: int|
                0 <= k < blocks@.len() ==> jview_seq(blocks@)[k] == jview(blocks@[k]),
            blocks_text_back(jview_seq(blocks@), blocks@.len() - 1) == blocks_text_back(
                jview_seq(blocks@),
                i as int - 1,
            ),
        decreases i,
    {
        i -= 1;
        let b = &blocks[i];
        let is_text = match get_str_field(b, "type") {
            Some(t) => {
                let tc = crate::text::str_to_chars(&t);
                crate::text::chars_eq_str(&tc, "text")
            },
            None => false,
        };
        if is_text {
            match get_str_field(b, "text") {
                Some(tx) => {
                    return Some(tx);
                },
                None => {},
            }
        }
    }
    None
}

/// Classify one parsed JSON value as a protocol event.
pub fn classify(j: &Json) -> (r: ParsedEvent)
    ensures
        r@ == spec_classify(jview(*j)),
{
    let identity = get_str_field(j, "session_id");
    let t = match get_str_field(j, "type") {
        Some(t) => t,
        None => {
            return ParsedEvent::Other { identity };
        },
    };
    let tc = crate::text::str_to_chars(&t);
    if crate::text::chars_eq_str(&tc, "system") {
        let is_init = match get_str_field(j, "subtype") {
            Some(st) => {
                let stc = crate::text::str_to_chars(&st);
                crate::text::chars_eq_str(&stc, "init")
            },
            None => false,
        };
        if is_init {
            ParsedEvent::Init { identity }
        } else {
            ParsedEvent::Other { identity }
        }
    } else if crate::text::chars_eq_str(&tc, "assistant") {
        match assistant_text(j) {
            Some(tx) => ParsedEvent::AssistantText { text: tx, identity },
            None => ParsedEvent::Other { identity },
        }
    } else if crate::text::chars_eq_str(&tc, "result") {
        let is_err = match get_bool_field(j, "is_error") {
            Some(b) => b,
            None => false,
        };
        if is_err {
            let message = match get_str_field(j, "error") {
                Some(m) => m,
                None => {
                    let mc = crate::text::str_to_chars("Unknown error");
                    chars_to_string(&mc)
                },
            };
            ParsedEvent::ResultError { message, identity }
        } else {
            ParsedEvent::ResultOk { text: get_str_field(j, "result"), identity }
        }
    } else {
        ParsedEvent::Other { identity }
    }
}

/// Decode one line of subprocess output; never fails.
pub fn decode_line(line: &str) -> (r: ParsedEvent)
    ensures
        r@ == spec_decode_line(line@),
{
    match parse_json_line(line) {
        Some(j) => classify(&j),
        None => ParsedEvent::Other { identity: None },
    }
}

// ---------------------------------------------------------------------------
// Encoding
// ---------------------------------------------------------------------------

/// Lower-case hexadecimal digit for a value below 16.
pub open spec fn hex_digit_char(v: u32) -> char {
    if v < 10 {
        ('0' as u32 + v) as char
    } else {
        ('a' as u32 + (v - 10)) as char
    }
}

/// How one character is written inside a JSON string: itself, a simple
/// escape, or a `\u00XX` escape for the remaining control characters.
pub open spec fn spec_escape_char(c: char) -> Seq<char> {
    if c == '"' {
        seq!['\\', '"']
    } else if c == '\\' {
        seq!['\\', '\\']
    } else if c == '\u{0008}' {
        seq!['\\', 'b']
    } else if c == '\u{000C}' {
        seq!['\\', 'f']
    } else if c == '\n' {
        seq!['\\', 'n']
    } else if c == '\r' {
        seq!['\\', 'r']
    } else if c == '\t' {
        seq!['\\', 't']
    } else if (c as u32) < 0x20 {
        seq!['\\', 'u', '0', '0', hex_digit_char((c as u32) / 16), hex_digit_char((c as u32) % 16)]
    } else {
        seq![c]
    }
}

/// How a whole text is written inside a JSON string.
pub open spec fn spec_json_escape(s: Seq<char>) -> Seq<char>
    decreases s.len(),
{
    if s.len() == 0 {
        Seq::empty()
    } else {
        spec_escape_char(s[0]) + spec_json_escape(s.drop_first())
    }
}

/// Escaping distributes over concatenation.
pub proof fn lemma_json_escape_append(a: Seq<char>, b: Seq<char>)
    ensures
        spec_json_escape(a + b) == spec_json_escape(a) + spec_json_escape(b),
    decreases a.len(),
{
    if a.len() == 0 {
        assert(a + b =~= b);
        assert(Seq::<char>::empty() + spec_json_escape(b) =~= spec_json_escape(b));
    } else {
        lemma_json_escape_append(a.drop_first(), b);
        assert((a + b).drop_first() =~= a.drop_first() + b);
        assert((a + b)[0] == a[0]);
        assert(spec_escape_char(a[0]) + (spec_json_escape(a.drop_first()) + spec_json_escape(b))
            =~= (spec_escape_char(a[0]) + spec_json_escape(a.drop_first())) + spec_json_escape(
            b,
        ));
    }
}

/// The escape of a single character.
pub proof fn lemma_json_escape_singleton(c: char)
    ensures
        spec_json_escape(seq![c]) == spec_escape_char(c),
{
    assert(seq![c].drop_first() =~= Seq::<char>::empty());
    assert(spec_json_escape(Seq::<char>::empty()) == Seq::<char>::empty());
    assert(seq![c][0] == c);
    assert(spec_json_escape(seq![c]) == spec_escape_char(c) + spec_json_escape(
        Seq::<char>::empty(),
    ));
    assert(spec_escape_char(c) + Seq::<char>::empty() =~= spec_escape_char(c));
}

/// Lower-case hexadecimal digit for a value below 16.
pub fn hex_char(v: u32) -> (r: char)
    requires
        v < 16,
    ensures
        r == hex_digit_char(v),
{
    let u = if v < 10 {
        '0' as u32 + v
    } else {
        'a' as u32 + (v - 10)
    };
    match char_from_u32(u) {
        Some(c) => c,
        None => {
            // unreachable: u is far below the surrogate range
            assert(false);
            '0'
        },
    }
}

/// Append the JSON-string escape of `c` to `out`.
fn push_escaped(out: &mut Vec<char>, c: char)
    ensures
        final(out)@ == old(out)@ + spec_escape_char(c),
{
    if c == '"' {
        out.push('\\');
        out.push('"');
    } else if c == '\\' {
        out.push('\\');
        out.push('\\');
    } else if c == '\u{0008}' {
        out.push('\\');
        out.push('b');
    } else if c == '\u{000C}' {
        out.push('\\');
        out.push('f');
    } else if c == '\n' {
        out.push('\\');
        out.push('n');
    } else if c == '\r' {
        out.push('\\');
        out.push('r');
    } else if c == '\t' {
        out.push('\\');
        out.push('t');
    } else if (c as u32) < 0x20 {
        out.push('\\');
        out.push('u');
        out.push('0');
        out.push('0');
        out.push(hex_char((c as u32) / 16));
        out.push(hex_char((c as u32) % 16));
    } else {
        out.push(c);
    }
    assert(final(out)@ =~= old(out)@ + spec_escape_char(c));
}

/// The fixed part of an outbound user message before the content.
pub open spec fn spec_user_prefix() -> Seq<char> {
    "{\"type\":\"user\",\"message\":{\"role\":\"user\",\"content\":\""@
}

/// The fixed part of an outbound user message after the content.
pub open spec fn spec_user_suffix() -> Seq<char> {
    "\"}}"@
}

/// The wire form of an outbound user message with the given content.
pub open spec fn spec_encode_user_message(text: Seq<char>) -> Seq<char> {
    spec_user_prefix() + spec_json_escape(text) + spec_user_suffix()
}

/// Encode an outbound user message as one wire line (without the newline):
/// a `user`-typed JSON object whose `message.content` is `text`, escaped.
pub fn encode_user_message(text: &str) -> (r: String)
    ensures
        r@ == spec_encode_user_message(text@),
{
    let mut out: Vec<char> = Vec::new();
    push_str_chars(&mut out, "{\"type\":\"user\",\"message\":{\"role\":\"user\",\"content\":\"");
    assert(out@ == Seq::<char>::empty() + spec_user_prefix());
    assert(out@ =~= spec_user_prefix());
    let chars = str_to_chars(text);
    let mut i: usize = 0;
    proof {
        assert(chars@.subrange(0, 0) =~= Seq::<char>::empty());
    }
    while i < chars.len()
        invariant
            i <= chars@.len(),
            chars@ == text@,
            out@ == spec_user_prefix() + spec_json_escape(chars@.subrange(0, i as int)),
        decreases chars@.len() - i,
    {
        let c = chars[i];
        proof {
            assert(chars@.subrange(0, i + 1) =~= chars@.subrange(0, i as int) + seq![c]);
            lemma_json_escape_append(chars@.subrange(0, i as int), seq![c]);
            lemma_json_escape_singleton(c);
            assert((spec_user_prefix() + spec_json_escape(chars@.subrange(0, i as int)))
                + spec_escape_char(c) =~= spec_user_prefix() + (spec_json_escape(
                chars@.subrange(0, i as int),
            ) + spec_escape_char(c)));
        }
        push_escaped(&mut out, c);
        i += 1;
    }
    assert(chars@.subrange(0, chars@.len() as int) =~= chars@);
    push_str_chars(&mut out, "\"}}");
    assert(out@ =~= spec_encode_user_message(text@));
    chars_to_string(&out)
}

} // verus!
