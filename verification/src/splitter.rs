//! Message splitter that respects the chat transport's length limit and,
//! optionally, avoids breaking fenced code blocks.
//!
//! Lengths count characters.  A chunk boundary is looked for, in order of
//! preference, at a code-block boundary (in format-aware mode), a paragraph
//! break, a line break, a sentence end, or a word break, falling back to a
//! hard cut at the limit.

use vstd::prelude::*;

use crate::text::{chars_to_string, spec_find, str_to_chars, subvec};

verus! {

/// Last index at or before `k` where `pat` occurs in `s`, searching down.
pub open spec fn spec_rfind_down(s: Seq<char>, pat: Seq<char>, k: int) -> Option<int>
    decreases k + 1,
{
    if k < 0 {
        None
    } else if k + pat.len() <= s.len() && s.subrange(k, k + pat.len()) == pat {
        Some(k)
    } else {
        spec_rfind_down(s, pat, k - 1)
    }
}

/// Last occurrence of `pat` in `s`.
pub open spec fn spec_rfind(s: Seq<char>, pat: Seq<char>) -> Option<int> {
    spec_rfind_down(s, pat, s.len() - pat.len())
}

/// Last occurrence of `pat` in `s`.
pub fn rfind(s: &Vec<char>, pat: &Vec<char>) -> (r: Option<usize>)
    requires
        pat@.len() > 0,
    ensures
        (match r {
            None => spec_rfind(s@, pat@) is None,
            Some(k) => spec_rfind(s@, pat@) == Some(k as int) && k + pat@.len() <= s@.len(),
        }),
{
    let n = s.len();
    let m = pat.len();
    if m > n {
        proof {
            assert(spec_rfind_down(s@, pat@, s@.len() - pat@.len()) is None);
        }
        return None;
    }
    let mut k = n - m;
    loop
        invariant
            n == s@.len(),
            m == pat@.len(),
            m > 0,
            k <= n - m,
            spec_rfind(s@, pat@) == spec_rfind_down(s@, pat@, k as int),
        decreases k + 1,
    {
        if crate::text::matches_at(s, pat, k) {
            return Some(k);
        }
        assert(spec_rfind_down(s@, pat@, k as int) == spec_rfind_down(s@, pat@, k - 1));
        if k == 0 {
            return None;
        }
        k -= 1;
    }
}

/// Number of (non-overlapping, leftmost) occurrences of a triple-backtick
/// fence in `s` starting at `i`.
pub open spec fn spec_count_fences(s: Seq<char>, i: int) -> nat
    decreases s.len() - i,
{
    if i < 0 || i + 3 > s.len() {
        0
    } else if s[i] == '`' && s[i + 1] == '`' && s[i + 2] == '`' {
        1 + spec_count_fences(s, i + 3)
    } else {
        spec_count_fences(s, i + 1)
    }
}

/// Whether `position` sits inside a fenced code block: an odd number of
/// fences precede it.
pub open spec fn spec_inside_code_block(s: Seq<char>, position: int) -> bool {
    spec_count_fences(s.subrange(0, position), 0) % 2 == 1
}

/// Whether `position` sits inside a fenced code block.
pub fn is_inside_code_block(text: &str, position: usize) -> (r: bool)
    requires
        position <= text@.len(),
    ensures
        r == spec_inside_code_block(text@, position as int),
{
    let chars = str_to_chars(text);
    let before = subvec(&chars, 0, position);
    let mut count: u64 = 0;
    let mut i: usize = 0;
    let n = before.len();
    proof {
        assert(before@ =~= text@.subrange(0, position as int));
    }
    loop
        invariant
            n == before@.len(),
            before@ == text@.subrange(0, position as int),
            i <= n,
            count <= i,
            spec_count_fences(before@, 0) == count + spec_count_fences(before@, i as int),
        decreases n - i,
    {
        if n - i < 3 {
            proof {
                assert(spec_count_fences(before@, i as int) == 0);
            }
            return count % 2 == 1;
        }
        if before[i] == '`' && before[i + 1] == '`' && before[i + 2] == '`' {
            assert(spec_count_fences(before@, i as int) == 1 + spec_count_fences(
                before@,
                i + 3,
            ));
            count += 1;
            i += 3;
        } else {
            assert(spec_count_fences(before@, i as int) == spec_count_fences(before@, i + 1));
            i += 1;
        }
    }
}

/// Splits text into chunks within a maximum length, optionally keeping
/// fenced code blocks whole.
pub struct MessageSplitter {
    max_length: usize,
    format_aware: bool,
}

/// Where a code-block-aware split may fall inside the window
/// `start .. max_end`: just after a block's closing fence (and its newline)
/// when the window begins inside a block, or on the line break before a
/// block that opens in the window.
pub open spec fn spec_cb_boundary(s: Seq<char>, start: int, max_end: int) -> Option<int> {
    let window = s.subrange(start, max_end);
    if spec_inside_code_block(s, start) {
        match spec_find(window, seq!['`', '`', '`'], 0) {
            Some(pos) => {
                let end_pos = start + pos + 3;
                if end_pos < s.len() && s[end_pos] == '\n' {
                    Some(end_pos + 1)
                } else {
                    Some(end_pos)
                }
            },
            None => None,
        }
    } else {
        match spec_find(window, seq!['`', '`', '`'], 0) {
            Some(pos) => if pos > 0 {
                match spec_rfind(window.subrange(0, pos), seq!['\n']) {
                    Some(nl) => Some(start + nl + 1),
                    None => None,
                }
            } else {
                None
            },
            None => None,
        }
    }
}

/// The split point chosen inside the window `start .. max_end`: a code-block
/// boundary in format-aware mode, else the last paragraph break, line break,
/// sentence end, or word break that (in format-aware mode) does not fall
/// inside a code block, else the hard cut at `max_end`.
pub open spec fn spec_safe_split(
    s: Seq<char>,
    start: int,
    max_end: int,
    format_aware: bool,
) -> int {
    let window = s.subrange(start, max_end);
    let cb: Option<int> = if format_aware {
        spec_cb_boundary(s, start, max_end)
    } else {
        None
    };
    match cb {
        Some(p) => p,
        None => {
            let p1 = spec_rfind(window, seq!['\n', '\n']);
            if p1 matches Some(pos) && (!format_aware || !spec_inside_code_block(
                s,
                start + pos + 2,
            )) {
                start + p1->0 + 2
            } else {
                let p2 = spec_rfind(window, seq!['\n']);
                if p2 matches Some(pos) && (!format_aware || !spec_inside_code_block(
                    s,
                    start + pos + 1,
                )) {
                    start + p2->0 + 1
                } else {
                    let p3 = spec_rfind(window, seq!['.', ' ']);
                    if p3 matches Some(pos) && (!format_aware || !spec_inside_code_block(
                        s,
                        start + pos + 2,
                    )) {
                        start + p3->0 + 2
                    } else {
                        let p4 = spec_rfind(window, seq![' ']);
                        if p4 matches Some(pos) && (!format_aware || !spec_inside_code_block(
                            s,
                            start + pos + 1,
                        )) {
                            start + p4->0 + 1
                        } else {
                            max_end
                        }
                    }
                }
            }
        },
    }
}

/// The chunks of `s` from `start`: whole when it fits, else cut at the
/// chosen split point and continued.
pub open spec fn spec_split_from(s: Seq<char>, start: int, max_length: int, format_aware: bool)
    -> Seq<Seq<char>>
    decreases s.len() - start,
{
    if start >= s.len() {
        Seq::empty()
    } else if s.len() - start <= max_length {
        seq![s.subrange(start, s.len() as int)]
    } else {
        let cut = spec_safe_split(s, start, start + max_length, format_aware);
        if cut <= start || cut > s.len() {
            seq![s.subrange(start, s.len() as int)]
        } else {
            seq![s.subrange(start, cut)] + spec_split_from(s, cut, max_length, format_aware)
        }
    }
}

/// How a text splits: unchanged when it fits, else chunked.
pub open spec fn spec_split(s: Seq<char>, max_length: int, format_aware: bool) -> Seq<
    Seq<char>,
> {
    if s.len() <= max_length {
        seq![s]
    } else {
        spec_split_from(s, 0, max_length, format_aware)
    }
}

impl MessageSplitter {
    /// The configured maximum chunk length.
    pub closed spec fn spec_max_length(&self) -> int {
        self.max_length as int
    }

    /// Whether splitting avoids breaking code blocks.
    pub closed spec fn spec_format_aware(&self) -> bool {
        self.format_aware
    }

    /// A splitter with the given limit and mode.
    pub fn new(max_length: usize, format_aware: bool) -> (r: MessageSplitter)
        ensures
            r.spec_max_length() == max_length,
            r.spec_format_aware() == format_aware,
    {
        MessageSplitter { max_length, format_aware }
    }

    /// The split point chosen inside the window `start .. max_end`.
    fn find_safe_split_point(&self, chars: &Vec<char>, start: usize, max_end: usize) -> (r:
        usize)
        requires
            start < max_end <= chars@.len(),
        ensures
            r as int == spec_safe_split(
                chars@,
                start as int,
                max_end as int,
                self.spec_format_aware(),
            ),
            start < r <= chars@.len(),
    {
        let window = subvec(chars, start, max_end);
        let text_s = chars_to_string(chars);
        if self.format_aware {
            match self.find_code_block_boundary(chars, start, max_end) {
                Some(p) => {
                    return p;
                },
                None => {},
            }
        }
        let mut pat: Vec<char> = Vec::new();
        pat.push('\n');
        pat.push('\n');
        assert(pat@ =~= seq!['\n', '\n']);
        match rfind(&window, &pat) {
            Some(pos) => {
                let candidate = start + pos + 2;
                if !self.format_aware || !is_inside_code_block(text_s.as_str(), candidate) {
                    return candidate;
                }
            },
            None => {},
        }
        let mut pat2: Vec<char> = Vec::new();
        pat2.push('\n');
        assert(pat2@ =~= seq!['\n']);
        match rfind(&window, &pat2) {
            Some(pos) => {
                let candidate = start + pos + 1;
                if !self.format_aware || !is_inside_code_block(text_s.as_str(), candidate) {
                    return candidate;
                }
            },
            None => {},
        }
        let mut pat3: Vec<char> = Vec::new();
        pat3.push('.');
        pat3.push(' ');
        assert(pat3@ =~= seq!['.', ' ']);
        match rfind(&window, &pat3) {
            Some(pos) => {
                let candidate = start + pos + 2;
                if !self.format_aware || !is_inside_code_block(text_s.as_str(), candidate) {
                    return candidate;
                }
            },
            None => {},
        }
        let mut pat4: Vec<char> = Vec::new();
        pat4.push(' ');
        assert(pat4@ =~= seq![' ']);
        match rfind(&window, &pat4) {
            Some(pos) => {
                let candidate = start + pos + 1;
                if !self.format_aware || !is_inside_code_block(text_s.as_str(), candidate) {
                    return candidate;
                }
            },
            None => {},
        }
        max_end
    }

    /// A code-block-aware boundary inside the window, if one exists.
    fn find_code_block_boundary(&self, chars: &Vec<char>, start: usize, max_end: usize) -> (r:
        Option<usize>)
        requires
            start < max_end <= chars@.len(),
        ensures
            (match r {
                Some(p) => spec_cb_boundary(chars@, start as int, max_end as int) == Some(
                    p as int,
                ) && start < p <= chars@.len(),
                None => spec_cb_boundary(chars@, start as int, max_end as int) is None,
            }),
    {
        let window = subvec(chars, start, max_end);
        let text_s = chars_to_string(chars);
        let mut fence: Vec<char> = Vec::new();
        fence.push('`');
        fence.push('`');
        fence.push('`');
        assert(fence@ =~= seq!['`', '`', '`']);
        if is_inside_code_block(text_s.as_str(), start) {
            match crate::text::find_from(&window, &fence, 0) {
                Some(pos) => {
                    let end_pos = start + pos + 3;
                    if end_pos < chars.len() && chars[end_pos] == '\n' {
                        Some(end_pos + 1)
                    } else {
                        Some(end_pos)
                    }
                },
                None => None,
            }
        } else {
            match crate::text::find_from(&window, &fence, 0) {
                Some(pos) => {
                    if pos > 0 {
                        let before_code = subvec(&window, 0, pos);
                        proof {
                            assert(before_code@ =~= window@.subrange(0, pos as int));
                        }
                        let mut nlp: Vec<char> = Vec::new();
                        nlp.push('\n');
                        assert(nlp@ =~= seq!['\n']);
                        match rfind(&before_code, &nlp) {
                            Some(nl) => Some(start + nl + 1),
                            None => None,
                        }
                    } else {
                        None
                    }
                },
                None => None,
            }
        }
    }

    /// Split text into chunks that fit within the configured limit.
    ///
    /// The limit counts characters, not bytes (a byte-based cut could fall
    /// inside a multi-byte character); empty text yields one empty chunk.
    pub fn split(&self, text: &str) -> (r: Vec<String>)
        requires
            self.spec_max_length() >= 1,
        ensures
            r.deep_view() == spec_split(text@, self.spec_max_length(), self.spec_format_aware()),
    {
        let chars = str_to_chars(text);
        if chars.len() <= self.max_length {
            let mut out: Vec<String> = Vec::new();
            let whole = chars_to_string(&chars);
            out.push(whole);
            proof {
                assert(out.deep_view() =~~= seq![text@]);
            }
            return out;
        }
        let mut out: Vec<String> = Vec::new();
        let mut start: usize = 0;
        proof {
            assert(out.deep_view() + spec_split_from(
                chars@,
                0,
                self.spec_max_length(),
                self.spec_format_aware(),
            ) =~~= spec_split(text@, self.spec_max_length(), self.spec_format_aware()));
        }
        loop
            invariant
                start <= chars@.len(),
                chars@ == text@,
                self.spec_max_length() >= 1,
                out.deep_view() + spec_split_from(
                    chars@,
                    start as int,
                    self.spec_max_length(),
                    self.spec_format_aware(),
                ) == spec_split(text@, self.spec_max_length(), self.spec_format_aware()),
            decreases chars@.len() - start,
        {
            if start >= chars.len() {
                proof {
                    assert(out.deep_view() + Seq::<Seq<char>>::empty() =~~= out.deep_view());
                }
                return out;
            }
            if chars.len() - start <= self.max_length {
                let rest = subvec(&chars, start, chars.len());
                let ghost ov0 = out.deep_view();
                let ghost rv = rest@;
                out.push(chars_to_string(&rest));
                proof {
                    assert(out.deep_view() =~~= ov0.push(rv));
                    assert(ov0.push(rv) =~~= ov0 + seq![rv]);
                }
                return out;
            }
            let cut = self.find_safe_split_point(&chars, start, start + self.max_length);
            let chunk = subvec(&chars, start, cut);
            let ghost ov0 = out.deep_view();
            let ghost cv = chunk@;
            out.push(chars_to_string(&chunk));
            proof {
                assert(out.deep_view() =~~= ov0.push(cv));
                assert((ov0 + seq![cv]) + spec_split_from(
                    chars@,
                    cut as int,
                    self.spec_max_length(),
                    self.spec_format_aware(),
                ) =~~= ov0 + (seq![cv] + spec_split_from(
                    chars@,
                    cut as int,
                    self.spec_max_length(),
                    self.spec_format_aware(),
                )));
                assert(ov0.push(cv) =~~= ov0 + seq![cv]);
            }
            start = cut;
        }
    }
}

} // verus!
